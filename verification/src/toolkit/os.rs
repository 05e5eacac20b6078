//! A path type over UTF-8 text, with the Unix path algebra of `std::path`:
//! joining, component parsing, parent, file name, extension and prefix removal.

use crate::text::{find_from, join_seq, 
    eq_str, last_index_of, rfind_char, split_seq, split_str, starts_with_seq, substring, views,
};
use vstd::prelude::*;

verus! {

// ───────────────────────────── joining ─────────────────────────────

/// `PathBuf::push` on Unix: an absolute `p` replaces `base`; otherwise `p` is
/// appended, with a `/` in between unless `base` is empty or already ends in one.
pub open spec fn path_join(base: Seq<char>, p: Seq<char>) -> Seq<char> {
    if p.len() > 0 && p[0] == '/' {
        p
    } else if base.len() == 0 || base.last() == '/' {
        base + p
    } else {
        base + seq!['/'] + p
    }
}

/// Joins two path texts.
pub fn join_text(base: &str, p: &str) -> (r: String)
    ensures
        r@ == path_join(base@, p@),
{
    let n = base.unicode_len();
    if p.unicode_len() > 0 && p.get_char(0) == '/' {
        return p.to_owned();
    }
    if n == 0 || base.get_char(n - 1) == '/' {
        crate::text::concat(base, p)
    } else {
        let r = crate::text::concat3(base, "/", p);
        proof {
            reveal_strlit("/");
        }
        assert("/"@ =~= seq!['/']);
        r
    }
}

// ───────────────────────────── components ─────────────────────────────

/// A path component, as `std::path::Component` names them on Unix.
pub ghost enum Comp {
    Root,
    Cur,
    Parent,
    Normal(Seq<char>),
}

/// A path component.
#[derive(Debug, Clone, PartialEq)]
pub enum PathComponent {
    RootDir,
    CurDir,
    ParentDir,
    Normal(String),
}

impl PathComponent {
    pub open spec fn view(self) -> Comp {
        match self {
            PathComponent::RootDir => Comp::Root,
            PathComponent::CurDir => Comp::Cur,
            PathComponent::ParentDir => Comp::Parent,
            PathComponent::Normal(s) => Comp::Normal(s@),
        }
    }

    /// A copy of the component.
    pub fn duplicate(&self) -> (r: PathComponent)
        ensures
            r == *self,
    {
        match self {
            PathComponent::RootDir => PathComponent::RootDir,
            PathComponent::CurDir => PathComponent::CurDir,
            PathComponent::ParentDir => PathComponent::ParentDir,
            PathComponent::Normal(s) => PathComponent::Normal(s.clone()),
        }
    }
}

/// The views of a list of components.
pub open spec fn comps(v: Seq<PathComponent>) -> Seq<Comp> {
    v.map_values(|c: PathComponent| c.view())
}

/// A piece between separators that names a component: neither empty nor `.`.
pub open spec fn kept_piece(p: Seq<char>) -> bool {
    p.len() > 0 && p != seq!['.']
}

/// The component a kept piece names.
pub open spec fn piece_comp(p: Seq<char>) -> Comp {
    if p == seq!['.', '.'] {
        Comp::Parent
    } else {
        Comp::Normal(p)
    }
}

/// The components named by the pieces between separators: empty pieces and
/// `.` pieces are dropped.
pub open spec fn body_comps(pieces: Seq<Seq<char>>) -> Seq<Comp>
    decreases pieces.len(),
{
    if pieces.len() == 0 {
        seq![]
    } else {
        body_comps(pieces.drop_last()) + (if kept_piece(pieces.last()) {
            seq![piece_comp(pieces.last())]
        } else {
            seq![]
        })
    }
}

/// `Path::components` on Unix: a leading `/` is the root; a leading `.` piece
/// is kept as the current directory; repeated separators, `.` pieces
/// elsewhere and a trailing separator are normalized away.
pub open spec fn components(s: Seq<char>) -> Seq<Comp> {
    let pieces = split_seq(s, seq!['/']);
    if s.len() > 0 && s[0] == '/' {
        seq![Comp::Root] + body_comps(pieces)
    } else if pieces.len() > 0 && pieces[0] == seq!['.'] {
        seq![Comp::Cur] + body_comps(pieces)
    } else {
        body_comps(pieces)
    }
}

/// The components of a path text.
pub fn components_of(s: &str) -> (r: Vec<PathComponent>)
    ensures
        comps(r@) == components(s@),
{
    proof {
        reveal_strlit("/");
        reveal_strlit(".");
        reveal_strlit("..");
    }
    assert("/"@ =~= seq!['/']);
    assert("."@ =~= seq!['.']);
    assert(".."@ =~= seq!['.', '.']);
    let pieces = split_str(s, "/");
    let mut out: Vec<PathComponent> = Vec::new();
    if s.unicode_len() > 0 && s.get_char(0) == '/' {
        out.push(PathComponent::RootDir);
    } else if eq_str(pieces[0].as_str(), ".") {
        out.push(PathComponent::CurDir);
    }
    let ghost prefix = comps(out@);
    assert(comps(out@) =~= prefix + body_comps(views(pieces@).subrange(0, 0)));
    let mut i: usize = 0;
    while i < pieces.len()
        invariant
            i <= pieces@.len(),
            "."@ == seq!['.'],
            ".."@ == seq!['.', '.'],
            comps(out@) == prefix + body_comps(views(pieces@).subrange(0, i as int)),
        decreases pieces@.len() - i,
    {
        let p = pieces[i].as_str();
        let ghost before = out@;
        assert(views(pieces@).subrange(0, i + 1).drop_last() =~= views(pieces@).subrange(
            0,
            i as int,
        ));
        assert(views(pieces@).subrange(0, i + 1).last() == p@);
        let ghost upto = views(pieces@).subrange(0, i + 1);
        assert(body_comps(upto) == body_comps(upto.drop_last()) + (if kept_piece(upto.last()) {
            seq![piece_comp(upto.last())]
        } else {
            seq![]
        }));
        if p.unicode_len() > 0 && !eq_str(p, ".") {
            if eq_str(p, "..") {
                out.push(PathComponent::ParentDir);
                assert(piece_comp(p@) == Comp::Parent);
                assert(comps(out@) =~= comps(before) + seq![Comp::Parent]);
            } else {
                out.push(PathComponent::Normal(p.to_owned()));
                assert(piece_comp(p@) == Comp::Normal(p@));
                assert(comps(out@) =~= comps(before) + seq![Comp::Normal(p@)]);
            }
        } else {
            assert(comps(out@) =~= comps(before));
        }
        i = i + 1;
    }
    assert(views(pieces@).subrange(0, pieces@.len() as int) =~= views(pieces@));
    out
}

// ───────────────────────────── rendering ─────────────────────────────

/// The text a component contributes when pushed onto a path.
pub open spec fn comp_text(c: Comp) -> Seq<char> {
    match c {
        Comp::Root => seq!['/'],
        Comp::Cur => seq!['.'],
        Comp::Parent => seq!['.', '.'],
        Comp::Normal(x) => x,
    }
}

/// The path built by pushing the components one after another onto an empty path.
pub open spec fn render(cs: Seq<Comp>) -> Seq<char>
    decreases cs.len(),
{
    if cs.len() == 0 {
        seq![]
    } else {
        path_join(render(cs.drop_last()), comp_text(cs.last()))
    }
}

fn component_text(c: &PathComponent) -> (r: String)
    ensures
        r@ == comp_text(c.view()),
{
    proof {
        reveal_strlit("/");
        reveal_strlit(".");
        reveal_strlit("..");
    }
    match c {
        PathComponent::RootDir => {
            assert("/"@ =~= seq!['/']);
            "/".to_owned()
        },
        PathComponent::CurDir => {
            assert("."@ =~= seq!['.']);
            ".".to_owned()
        },
        PathComponent::ParentDir => {
            assert(".."@ =~= seq!['.', '.']);
            "..".to_owned()
        },
        PathComponent::Normal(x) => x.clone(),
    }
}

/// The path built from the components `cs[from..to]`.
pub fn render_range(cs: &Vec<PathComponent>, from: usize, to: usize) -> (r: String)
    requires
        from <= to <= cs@.len(),
    ensures
        r@ == render(comps(cs@).subrange(from as int, to as int)),
{
    let mut out = String::new();
    let mut i: usize = from;
    assert(comps(cs@).subrange(from as int, from as int) =~= Seq::<Comp>::empty());
    while i < to
        invariant
            from <= i <= to <= cs@.len(),
            out@ == render(comps(cs@).subrange(from as int, i as int)),
        decreases to - i,
    {
        let t = component_text(&cs[i]);
        assert(comps(cs@).subrange(from as int, i + 1).drop_last() =~= comps(cs@).subrange(
            from as int,
            i as int,
        ));
        out = join_text(out.as_str(), t.as_str());
        i = i + 1;
    }
    out
}

// ───────────────────────────── derived operations ─────────────────────────────

/// `Path::parent`: the path of all components but the last, unless there is
/// none or the last is the root.
pub open spec fn path_parent(s: Seq<char>) -> Option<Seq<char>> {
    let cs = components(s);
    if cs.len() == 0 || cs.last() == Comp::Root {
        None
    } else {
        Some(render(cs.drop_last()))
    }
}

/// `Path::file_name`: the last component when it is a normal one.
pub open spec fn path_file_name(s: Seq<char>) -> Option<Seq<char>> {
    let cs = components(s);
    if cs.len() > 0 && cs.last() is Normal {
        Some(cs.last()->Normal_0)
    } else {
        None
    }
}

/// `Path::extension`: what follows the last `.` of the file name, unless the
/// name has no `.` or its only `.` is its first character.
pub open spec fn path_extension(s: Seq<char>) -> Option<Seq<char>> {
    match path_file_name(s) {
        None => None,
        Some(f) => match last_index_of(f, '.') {
            None => None,
            Some(j) => if j == 0 {
                None
            } else {
                Some(f.subrange(j + 1, f.len() as int))
            },
        },
    }
}

/// `base`'s components are the first components of `s` (`Path::starts_with`).
pub open spec fn path_starts_with(s: Seq<char>, base: Seq<char>) -> bool {
    let a = components(s);
    let b = components(base);
    b.len() <= a.len() && a.subrange(0, b.len() as int) == b
}

/// `Path::strip_prefix`: the path of the components that follow `base`'s.
pub open spec fn path_strip_prefix(s: Seq<char>, base: Seq<char>) -> Option<Seq<char>> {
    if path_starts_with(s, base) {
        let a = components(s);
        Some(render(a.subrange(components(base).len() as int, a.len() as int)))
    } else {
        None
    }
}

/// Whether the components of `b` are the first components of `a`.
pub fn comps_prefix(a: &Vec<PathComponent>, b: &Vec<PathComponent>) -> (r: bool)
    ensures
        r == (b@.len() <= a@.len() && comps(a@).subrange(0, b@.len() as int) == comps(b@)),
{
    if b.len() > a.len() {
        return false;
    }
    let mut i: usize = 0;
    while i < b.len()
        invariant
            b@.len() <= a@.len(),
            i <= b@.len(),
            forall|j: int| 0 <= j < i ==> a@[j].view() == b@[j].view(),
        decreases b@.len() - i,
    {
        let same = match (&a[i], &b[i]) {
            (PathComponent::RootDir, PathComponent::RootDir) => true,
            (PathComponent::CurDir, PathComponent::CurDir) => true,
            (PathComponent::ParentDir, PathComponent::ParentDir) => true,
            (PathComponent::Normal(x), PathComponent::Normal(y)) => eq_str(x.as_str(), y.as_str()),
            _ => false,
        };
        if !same {
            assert(comps(a@).subrange(0, b@.len() as int)[i as int] != comps(b@)[i as int]);
            return false;
        }
        i = i + 1;
    }
    assert(comps(a@).subrange(0, b@.len() as int) =~= comps(b@));
    true
}

// ───────────────────────────── the path type ─────────────────────────────

/// A filesystem path, held as its text.
#[derive(Debug, Clone)]
pub struct PathWrapper(String);

impl View for PathWrapper {
    type V = Seq<char>;

    open spec fn view(&self) -> Seq<char> {
        self.text()
    }
}

impl PathWrapper {
    /// The text of the path.
    pub closed spec fn text(&self) -> Seq<char> {
        self.0@
    }

    /// A path with the given text.
    pub fn new(path: &str) -> (r: PathWrapper)
        ensures
            r@ == path@,
    {
        PathWrapper(path.to_owned())
    }

    /// The empty path.
    pub fn empty() -> (r: PathWrapper)
        ensures
            r@ == Seq::<char>::empty(),
    {
        PathWrapper(String::new())
    }

    /// A path holding the given string.
    pub fn from_string(path: String) -> (r: PathWrapper)
        ensures
            r@ == path@,
    {
        PathWrapper(path)
    }

    /// `self` with `path` pushed onto it.
    pub fn join(&self, path: &str) -> (r: PathWrapper)
        ensures
            r@ == path_join(self@, path@),
    {
        PathWrapper(join_text(self.0.as_str(), path))
    }

    /// The components of the path.
    pub fn components(&self) -> (r: Vec<PathComponent>)
        ensures
            comps(r@) == components(self@),
    {
        components_of(self.0.as_str())
    }

    /// The path without its last component.
    pub fn parent(&self) -> (r: Option<PathWrapper>)
        ensures
            match r {
                Some(p) => path_parent(self@) == Some(p@),
                None => path_parent(self@) is None,
            },
    {
        let cs = self.components();
        let n = cs.len();
        if n == 0 {
            return None;
        }
        if let PathComponent::RootDir = &cs[n - 1] {
            return None;
        }
        proof {
            assert(comps(cs@).subrange(0, n - 1) =~= comps(cs@).drop_last());
        }
        Some(PathWrapper(render_range(&cs, 0, n - 1)))
    }

    /// The last component, when it is a normal one.
    pub fn file_name(&self) -> (r: Option<String>)
        ensures
            match r {
                Some(f) => path_file_name(self@) == Some(f@),
                None => path_file_name(self@) is None,
            },
    {
        let cs = self.components();
        let n = cs.len();
        if n == 0 {
            return None;
        }
        match &cs[n - 1] {
            PathComponent::Normal(x) => Some(x.clone()),
            _ => None,
        }
    }

    /// The extension of the file name.
    pub fn extension(&self) -> (r: Option<String>)
        ensures
            match r {
                Some(e) => path_extension(self@) == Some(e@),
                None => path_extension(self@) is None,
            },
    {
        match self.file_name() {
            None => None,
            Some(f) => match rfind_char(f.as_str(), '.') {
                None => None,
                Some(j) => {
                    if j == 0 {
                        None
                    } else {
                        let n = f.as_str().unicode_len();
                        Some(substring(f.as_str(), j + 1, n))
                    }
                },
            },
        }
    }

    /// Whether `base`'s components are the first components of `self`.
    pub fn starts_with(&self, base: &PathWrapper) -> (b: bool)
        ensures
            b == path_starts_with(self@, base@),
    {
        let a = self.components();
        let b = base.components();
        comps_prefix(&a, &b)
    }

    /// `self` relative to `base`; `self` unchanged when `base` is not a prefix of it.
    pub fn relative_to(&self, base: &PathWrapper) -> (r: PathWrapper)
        ensures
            r@ == match path_strip_prefix(self@, base@) {
                Some(rest) => rest,
                None => self@,
            },
    {
        let a = self.components();
        let b = base.components();
        if comps_prefix(&a, &b) {
            PathWrapper(render_range(&a, b.len(), a.len()))
        } else {
            self.duplicate()
        }
    }

    /// The text of the path.
    pub fn as_path(&self) -> (r: &str)
        ensures
            r@ == self@,
    {
        self.0.as_str()
    }

    /// The text of the path as a new string.
    pub fn to_string_lossy(&self) -> (r: String)
        ensures
            r@ == self@,
    {
        self.0.clone()
    }

    /// A copy of the path.
    pub fn duplicate(&self) -> (r: PathWrapper)
        ensures
            r@ == self@,
    {
        PathWrapper(self.0.clone())
    }
}

// ───────────────────────────── joining and stripping ─────────────────────────────

/// A relative path of names: not empty, not absolute, and no piece between
/// separators is empty or `.` (each is a name or `..`).
pub open spec fn plain_relative(r: Seq<char>) -> bool {
    &&& r.len() > 0
    &&& r[0] != '/'
    &&& forall|i: int|
        0 <= i < split_seq(r, seq!['/']).len() ==> kept_piece(#[trigger] split_seq(r, seq!['/'])[i])
}

proof fn lemma_body_comps_concat(p: Seq<Seq<char>>, q: Seq<Seq<char>>)
    ensures
        body_comps(p + q) == body_comps(p) + body_comps(q),
    decreases q.len(),
{
    if q.len() == 0 {
        assert(p + q =~= p);
        assert(body_comps(p) + body_comps(q) =~= body_comps(p));
    } else {
        lemma_body_comps_concat(p, q.drop_last());
        assert((p + q).drop_last() =~= p + q.drop_last());
        assert((p + q).last() == q.last());
        assert(body_comps(p + q) =~= body_comps(p) + body_comps(q));
    }
}

pub proof fn lemma_split_empty()
    ensures
        split_seq(Seq::<char>::empty(), seq!['/']) == seq![Seq::<char>::empty()],
        body_comps(seq![Seq::<char>::empty()]) == Seq::<Comp>::empty(),
{
    let e = Seq::<char>::empty();
    assert(find_from(e, seq!['/'], 0) is None);
    assert(e.subrange(0, 0) =~= e);
    assert(seq![e].drop_last() =~= Seq::<Seq<char>>::empty());
    assert(!kept_piece(e));
    assert(body_comps(Seq::<Seq<char>>::empty()) =~= Seq::<Comp>::empty());
    assert(body_comps(seq![e]) =~= body_comps(seq![e].drop_last()) + Seq::<Comp>::empty());
}

/// The components of `base` joined with a relative path are `base`'s
/// followed by those the relative path's pieces name.
proof fn lemma_components_join(b: Seq<char>, r: Seq<char>)
    requires
        plain_relative(r),
    ensures
        components(path_join(b, r)) == components(b) + body_comps(split_seq(r, seq!['/'])),
{
    let sep = seq!['/'];
    let rp = split_seq(r, sep);
    crate::text::lemma_split_from_len(r, sep, 0);
    assert(kept_piece(rp[0]));
    lemma_split_empty();
    if b.len() == 0 {
        assert(path_join(b, r) == r);
        assert(b =~= Seq::<char>::empty());
        assert(seq![Seq::<char>::empty()][0] != seq!['.']);
        assert(components(b) =~= Seq::<Comp>::empty());
        assert(components(r) == body_comps(rp));
        assert(components(b) + body_comps(rp) =~= body_comps(rp));
    } else {
        let b0 = if b.last() == '/' {
            b.drop_last()
        } else {
            b
        };
        let j = path_join(b, r);
        assert(j =~= b0 + sep + r);
        crate::text::lemma_split_concat(b0, '/', r, 0);
        let bp0 = split_seq(b0, sep);
        crate::text::lemma_split_from_len(b0, sep, 0);
        if b.last() == '/' {
            assert(b =~= b0 + sep + Seq::<char>::empty());
            crate::text::lemma_split_concat(b0, '/', Seq::<char>::empty(), 0);
            lemma_body_comps_concat(bp0, seq![Seq::<char>::empty()]);
            assert(body_comps(bp0) + Seq::<Comp>::empty() =~= body_comps(bp0));
        }
        let jp = split_seq(j, sep);
        assert(jp == bp0 + rp);
        lemma_body_comps_concat(bp0, rp);
        assert(split_seq(b, sep)[0] == bp0[0]);
        assert(jp[0] == bp0[0]);
        assert(j[0] == b[0]);
        assert(body_comps(split_seq(b, sep)) == body_comps(bp0));
        if b[0] == '/' {
            assert(components(j) =~= components(b) + body_comps(rp));
        } else if bp0[0] == seq!['.'] {
            assert(components(j) =~= components(b) + body_comps(rp));
        } else {
            assert(components(j) =~= components(b) + body_comps(rp));
        }
    }
}

/// A name a normal component can hold: not empty, not `.` or `..`, and
/// without a separator.
pub open spec fn plain_name(x: Seq<char>) -> bool {
    &&& x.len() > 0
    &&& x != seq!['.']
    &&& x != seq!['.', '.']
    &&& forall|k: int| 0 <= k < x.len() ==> x[k] != '/'
}

pub proof fn lemma_body_comps_from(pieces: Seq<Seq<char>>)
    ensures
        forall|i: int|
            0 <= i < body_comps(pieces).len() ==> exists|j: int|
                0 <= j < pieces.len() && kept_piece(pieces[j]) && #[trigger] body_comps(pieces)[i]
                    == piece_comp(pieces[j]),
    decreases pieces.len(),
{
    if pieces.len() > 0 {
        let pre = pieces.drop_last();
        lemma_body_comps_from(pre);
        let b = body_comps(pieces);
        assert forall|i: int| 0 <= i < b.len() implies exists|j: int|
            0 <= j < pieces.len() && kept_piece(pieces[j]) && #[trigger] b[i] == piece_comp(
                pieces[j],
            ) by {
            if i < body_comps(pre).len() {
                let j = choose|j: int|
                    0 <= j < pre.len() && kept_piece(pre[j]) && body_comps(pre)[i] == piece_comp(
                        pre[j],
                    );
                assert(pieces[j] == pre[j]);
            } else {
                assert(pieces[pieces.len() - 1] == pieces.last());
            }
        }
    }
}

/// Rendering the components named by pieces that are all names or `..` and
/// hold no separator joins the pieces with `/`.
pub proof fn lemma_render_pieces(pieces: Seq<Seq<char>>)
    requires
        forall|i: int| 0 <= i < pieces.len() ==> kept_piece(#[trigger] pieces[i]),
        forall|i: int, k: int| 0 <= i < pieces.len() && 0 <= k < pieces[i].len() ==> #[trigger] pieces[i][k] != '/',
    ensures
        render(body_comps(pieces)) == join_seq(pieces, seq!['/']),
        pieces.len() > 0 ==> join_seq(pieces, seq!['/']).len() > 0 && join_seq(pieces, seq!['/']).last()
            == pieces.last().last(),
    decreases pieces.len(),
{
    if pieces.len() > 0 {
        let pre = pieces.drop_last();
        let p = pieces.last();
        assert(kept_piece(pieces[pieces.len() - 1]));
        assert(p[0] == pieces[pieces.len() - 1][0]);
        assert(p[0] != '/');
        assert forall|i: int| 0 <= i < pre.len() implies kept_piece(#[trigger] pre[i]) by {
            assert(pre[i] == pieces[i]);
        }
        assert forall|i: int, k: int| 0 <= i < pre.len() && 0 <= k < pre[i].len() implies #[trigger] pre[i][k] != '/' by {
            assert(pre[i] == pieces[i]);
        }
        lemma_render_pieces(pre);
        let cs = body_comps(pieces);
        assert(cs == body_comps(pre).push(piece_comp(p)));
        assert(cs.drop_last() =~= body_comps(pre));
        assert(comp_text(piece_comp(p)) == p);
        if pre.len() == 0 {
            assert(render(body_comps(pre)) =~= Seq::<char>::empty());
            assert(pieces =~= seq![p]);
        } else {
            let last_pre = pre.last();
            assert(last_pre == pieces[pre.len() - 1]);
            assert(last_pre.len() > 0);
            assert(last_pre.last() == last_pre[last_pre.len() - 1]);
            assert(last_pre.last() != '/');
        }
    }
}

pub proof fn lemma_split_join_names(names: Seq<Seq<char>>)
    requires
        names.len() > 0,
        forall|i: int, k: int| 0 <= i < names.len() && 0 <= k < names[i].len() ==> #[trigger] names[i][k] != '/',
    ensures
        split_seq(join_seq(names, seq!['/']), seq!['/']) == names,
    decreases names.len(),
{
    let sep = seq!['/'];
    let t = names.last();
    assert forall|k: int| 0 <= k < t.len() implies t[k] != '/' by {
        assert(t == names[names.len() - 1]);
    }
    assert forall|k: int| 0 <= k implies !crate::text::occurs_at(t, sep, k) by {
        if crate::text::occurs_at(t, sep, k) {
            assert(t.subrange(k, k + 1)[0] == t[k]);
        }
    }
    crate::text::lemma_find_none(t, sep, 0);
    assert(t.subrange(0, t.len() as int) =~= t);
    if names.len() == 1 {
        assert(names =~= seq![t]);
    } else {
        let pre = names.drop_last();
        assert forall|i: int, k: int| 0 <= i < pre.len() && 0 <= k < pre[i].len() implies #[trigger] pre[i][k] != '/' by {
            assert(pre[i] == names[i]);
        }
        lemma_split_join_names(pre);
        let j = join_seq(pre, sep);
        assert(join_seq(names, sep) == j + sep + t);
        crate::text::lemma_split_concat(j, '/', t, 0);
        assert(pre + seq![t] =~= names);
    }
}

pub proof fn lemma_body_names(names: Seq<Seq<char>>, cs: Seq<Comp>)
    requires
        names.len() == cs.len(),
        forall|i: int| 0 <= i < names.len() ==> kept_piece(#[trigger] names[i]) && piece_comp(names[i]) == cs[i],
    ensures
        body_comps(names) == cs,
    decreases names.len(),
{
    if names.len() > 0 {
        let pre = names.drop_last();
        let cpre = cs.drop_last();
        assert forall|i: int| 0 <= i < pre.len() implies kept_piece(#[trigger] pre[i]) && piece_comp(pre[i]) == cpre[i] by {
            assert(pre[i] == names[i]);
            assert(cpre[i] == cs[i]);
        }
        lemma_body_names(pre, cpre);
        assert(names.last() == names[names.len() - 1]);
        assert(kept_piece(names.last()));
        assert(cpre.push(cs.last()) =~= cs);
    }
}

pub proof fn lemma_text_starts_with_name(names: Seq<Seq<char>>)
    requires
        names.len() > 0,
        names[0].len() > 0,
        forall|i: int, k: int| 0 <= i < names.len() && 0 <= k < names[i].len() ==> #[trigger] names[i][k] != '/',
    ensures
        join_seq(names, seq!['/']).len() > 0,
        join_seq(names, seq!['/'])[0] == names[0][0],
    decreases names.len(),
{
    if names.len() > 1 {
        let pre = names.drop_last();
        assert(pre[0] == names[0]);
        assert forall|i: int, k: int| 0 <= i < pre.len() && 0 <= k < pre[i].len() implies #[trigger] pre[i][k] != '/' by {
            assert(pre[i] == names[i]);
        }
        lemma_text_starts_with_name(pre);
    }
}


/// A component that can follow the first: a plain name or `..`.
pub open spec fn body_comp_ok(c: Comp) -> bool {
    match c {
        Comp::Normal(x) => plain_name(x),
        Comp::Parent => true,
        _ => false,
    }
}

/// The components of `cs` from position `from` on are all body components.
pub open spec fn body_from(cs: Seq<Comp>, from: int) -> bool {
    forall|i: int| from <= i < cs.len() ==> body_comp_ok(#[trigger] cs[i])
}

/// The shape `components` gives: an optional root or current directory
/// first, then body components.
pub open spec fn canonical_comps(cs: Seq<Comp>) -> bool {
    if cs.len() > 0 && (cs[0] == Comp::Root || cs[0] == Comp::Cur) {
        body_from(cs, 1)
    } else {
        body_from(cs, 0)
    }
}

/// The texts of a list of components.
pub open spec fn comp_texts(cs: Seq<Comp>) -> Seq<Seq<char>> {
    cs.map_values(|c: Comp| comp_text(c))
}

proof fn lemma_components_canonical(s: Seq<char>)
    ensures
        canonical_comps(components(s)),
{
    let pieces = split_seq(s, seq!['/']);
    lemma_body_comps_from(pieces);
    crate::text::lemma_split_pieces_free(s, '/', 0);
    let b = body_comps(pieces);
    assert forall|i: int| 0 <= i < b.len() implies body_comp_ok(#[trigger] b[i]) by {
        let j = choose|j: int|
            0 <= j < pieces.len() && kept_piece(pieces[j]) && b[i] == piece_comp(pieces[j]);
        assert(forall|k: int| 0 <= k < pieces[j].len() ==> pieces[j][k] != '/');
    }
    let cs = components(s);
    if s.len() > 0 && s[0] == '/' {
        assert forall|i: int| 1 <= i < cs.len() implies body_comp_ok(#[trigger] cs[i]) by {
            assert(cs[i] == b[i - 1]);
        }
    } else if pieces.len() > 0 && pieces[0] == seq!['.'] {
        assert forall|i: int| 1 <= i < cs.len() implies body_comp_ok(#[trigger] cs[i]) by {
            assert(cs[i] == b[i - 1]);
        }
    } else {
        assert(cs == b);
        if cs.len() > 0 {
            assert(body_comp_ok(cs[0]));
        }
    }
}

proof fn lemma_body_texts(b: Seq<Comp>)
    requires
        body_from(b, 0),
    ensures
        body_comps(comp_texts(b)) == b,
        forall|i: int| 0 <= i < comp_texts(b).len() ==> kept_piece(#[trigger] comp_texts(b)[i]),
        forall|i: int, k: int|
            0 <= i < comp_texts(b).len() && 0 <= k < comp_texts(b)[i].len() ==> #[trigger] comp_texts(
                b,
            )[i][k] != '/',
        b.len() > 0 ==> comp_texts(b)[0].len() > 0,
{
    let t = comp_texts(b);
    assert forall|i: int| 0 <= i < t.len() implies kept_piece(#[trigger] t[i]) && piece_comp(t[i])
        == b[i] by {
        assert(body_comp_ok(b[i]));
        assert(t[i] == comp_text(b[i]));
        match b[i] {
            Comp::Normal(x) => {
                assert(plain_name(x));
                assert(t[i] == x);
            },
            Comp::Parent => {
                assert(t[i] == seq!['.', '.']);
                assert(t[i].len() == 2);
                assert(t[i] != seq!['.']);
            },
            _ => {},
        }
    }
    assert forall|i: int, k: int| 0 <= i < t.len() && 0 <= k < t[i].len() implies #[trigger] t[i][k]
        != '/' by {
        assert(body_comp_ok(b[i]));
    }
    lemma_body_names(t, b);
    if b.len() > 0 {
        assert(kept_piece(t[0]));
    }
}

proof fn lemma_render_lead(lead: Comp, b: Seq<Comp>)
    requires
        lead == Comp::Root || lead == Comp::Cur,
        body_from(b, 0),
    ensures
        b.len() == 0 ==> render(seq![lead] + b) == comp_text(lead),
        b.len() > 0 ==> render(seq![lead] + b) == path_join(
            comp_text(lead),
            join_seq(comp_texts(b), seq!['/']),
        ),
        b.len() > 0 ==> render(seq![lead] + b).last() != '/',
    decreases b.len(),
{
    let all = seq![lead] + b;
    if b.len() == 0 {
        assert(all =~= seq![lead]);
        assert(all.drop_last() =~= Seq::<Comp>::empty());
        assert(render(Seq::<Comp>::empty()) =~= Seq::<char>::empty());
        assert(render(all) == path_join(render(all.drop_last()), comp_text(all.last())));
        assert(Seq::<char>::empty() + comp_text(lead) =~= comp_text(lead));
    } else {
        let pre = b.drop_last();
        assert forall|i: int| 0 <= i < pre.len() implies body_comp_ok(#[trigger] pre[i]) by {
            assert(pre[i] == b[i]);
        }
        lemma_render_lead(lead, pre);
        assert(all.drop_last() =~= seq![lead] + pre);
        assert(all.last() == b.last());
        lemma_body_texts(b);
        lemma_body_texts(pre);
        let t = comp_texts(b);
        let tp = comp_texts(pre);
        assert(t.drop_last() =~= tp);
        let x = t.last();
        assert(x == t[t.len() - 1]);
        assert(kept_piece(x));
        assert(x[0] != '/');
        assert(x.last() == x[x.len() - 1]);
        assert(x.last() != '/');
        assert(comp_text(b.last()) == x);
        if pre.len() == 0 {
            assert(t =~= seq![x]);
            assert(join_seq(t, seq!['/']) == x);
        } else {
            lemma_render_pieces(tp);
            assert(join_seq(t, seq!['/']) == join_seq(tp, seq!['/']) + seq!['/'] + x);
            lemma_text_starts_with_name(tp);
            assert(join_seq(tp, seq!['/'])[0] != '/');
        }
    }
}

/// Rendering components of the shape `components` gives, and parsing the
/// text again, gives the same components.
pub proof fn lemma_components_render(cs: Seq<Comp>)
    requires
        canonical_comps(cs),
    ensures
        components(render(cs)) == cs,
{
    let sep = seq!['/'];
    let e = Seq::<char>::empty();
    lemma_split_empty();
    if cs.len() > 0 && (cs[0] == Comp::Root || cs[0] == Comp::Cur) {
        let lead = cs[0];
        let b = cs.subrange(1, cs.len() as int);
        assert(cs =~= seq![lead] + b);
        assert forall|i: int| 0 <= i < b.len() implies body_comp_ok(#[trigger] b[i]) by {
            assert(b[i] == cs[i + 1]);
        }
        lemma_render_lead(lead, b);
        lemma_body_texts(b);
        let lt = comp_text(lead);
        let text = render(cs);
        let lt0 = if lead == Comp::Root {
            e
        } else {
            seq!['.']
        };
        assert(lt0 + sep == (if lead == Comp::Root { seq!['/'] } else { seq!['.', '/'] }));
        let p0 = split_seq(lt0, sep);
        assert(p0 == seq![lt0]) by {
            if lead == Comp::Cur {
                assert(!crate::text::occurs_at(lt0, sep, 0));
                crate::text::lemma_find_none(lt0, sep, 0);
                assert(lt0.subrange(0, 1) =~= lt0);
            }
        }
        assert(body_comps(seq![lt0]) == Seq::<Comp>::empty()) by {
            assert(!kept_piece(lt0));
            assert(seq![lt0].drop_last() =~= Seq::<Seq<char>>::empty());
            assert(body_comps(Seq::<Seq<char>>::empty()) =~= Seq::<Comp>::empty());
            assert(body_comps(seq![lt0]) =~= body_comps(Seq::<Seq<char>>::empty()));
        }
        let tail = if b.len() == 0 {
            e
        } else {
            join_seq(comp_texts(b), sep)
        };
        let tp = if b.len() == 0 {
            seq![e]
        } else {
            comp_texts(b)
        };
        assert(split_seq(tail, sep) == tp) by {
            if b.len() > 0 {
                lemma_split_join_names(comp_texts(b));
            }
        }
        assert(body_comps(tp) == b) by {
            if b.len() == 0 {
                assert(b =~= Seq::<Comp>::empty());
            }
        }
        if b.len() == 0 {
            if lead == Comp::Root {
                assert(text =~= lt0 + sep + tail);
            } else {
                assert(text =~= lt0);
            }
        } else {
            lemma_text_starts_with_name(comp_texts(b));
            assert(text =~= lt0 + sep + tail);
        }
        if lead == Comp::Root || b.len() > 0 {
            crate::text::lemma_split_concat(lt0, '/', tail, 0);
            assert(split_seq(text, sep) == seq![lt0] + tp);
            lemma_body_comps_concat(seq![lt0], tp);
            assert(body_comps(split_seq(text, sep)) =~= b);
        } else {
            assert(split_seq(text, sep) == seq![lt0]);
            assert(b =~= Seq::<Comp>::empty());
        }
        assert(text[0] == lt[0]);
        assert(components(text) =~= cs);
    } else {
        if cs.len() == 0 {
            assert(render(cs) =~= e);
            assert(seq![e][0] != seq!['.']);
            assert(components(e) =~= cs);
        } else {
            lemma_body_texts(cs);
            let t = comp_texts(cs);
            lemma_render_pieces(t);
            lemma_split_join_names(t);
            lemma_text_starts_with_name(t);
            assert(kept_piece(t[0]));
            assert(components(render(cs)) =~= cs);
        }
    }
}

/// Every prefix of a path's components, rendered, is a prefix of the path.
pub proof fn lemma_render_prefix_is_prefix(s: Seq<char>, k: int)
    requires
        0 <= k <= components(s).len(),
    ensures
        path_starts_with(s, render(components(s).take(k))),
{
    let cs = components(s);
    lemma_components_canonical(s);
    let pre = cs.take(k);
    assert(canonical_comps(pre)) by {
        if pre.len() > 0 {
            assert(pre[0] == cs[0]);
        }
        assert forall|i: int| 0 <= i < pre.len() implies pre[i] == cs[i] by {}
    }
    lemma_components_render(pre);
    assert(cs.subrange(0, k) =~= pre);
}

/// Stripping a base from the base joined with a relative path of names gives
/// the relative path back (`Path::strip_prefix` undoes `Path::join`).
pub proof fn law_relative_to_undoes_join(base: Seq<char>, r: Seq<char>)
    requires
        plain_relative(r),
    ensures
        path_strip_prefix(path_join(base, r), base) == Some(r),
{
    let sep = seq!['/'];
    let rp = split_seq(r, sep);
    lemma_components_join(base, r);
    let a = components(path_join(base, r));
    let b = components(base);
    assert(a.subrange(0, b.len() as int) =~= b);
    assert(a.subrange(b.len() as int, a.len() as int) =~= body_comps(rp));
    crate::text::lemma_split_pieces_free(r, '/', 0);
    lemma_render_pieces(rp);
    crate::text::lemma_join_split(r, sep, 0);
    assert(r.subrange(0, r.len() as int) =~= r);
}

/// The parent of a path joined with one name is that path, as its components
/// write it (`Path::parent` undoes `Path::join` of a single name).
pub proof fn law_parent_of_join(p: Seq<char>, n: Seq<char>)
    requires
        plain_name(n),
    ensures
        path_parent(path_join(p, n)) == Some(render(components(p))),
{
    let sep = seq!['/'];
    assert forall|k: int| 0 <= k implies !crate::text::occurs_at(n, sep, k) by {
        if crate::text::occurs_at(n, sep, k) {
            assert(n.subrange(k, k + 1)[0] == n[k]);
        }
    }
    crate::text::lemma_find_none(n, sep, 0);
    assert(n.subrange(0, n.len() as int) =~= n);
    assert(split_seq(n, sep) =~= seq![n]);
    assert(plain_relative(n));
    lemma_components_join(p, n);
    assert(seq![n].drop_last() =~= Seq::<Seq<char>>::empty());
    assert(body_comps(Seq::<Seq<char>>::empty()) =~= Seq::<Comp>::empty());
    assert(seq![n].last() == n);
    assert(kept_piece(n));
    assert(piece_comp(n) == Comp::Normal(n));
    assert(body_comps(seq![n]) =~= seq![Comp::Normal(n)]);
    let cs = components(path_join(p, n));
    assert(cs.drop_last() =~= components(p));
}

// ───────────────────────────── walking a tree ─────────────────────────────

/// An entry met while walking a directory tree: its path and whether it is a
/// file or a directory.
#[derive(Debug, Clone)]
pub struct WalkEntry {
    pub path: PathWrapper,
    pub is_file: bool,
    pub is_dir: bool,
}

/// The paths of the entries that are files (`files`) or directories (`!files`), in order.
pub open spec fn entries_of_kind(es: Seq<WalkEntry>, files: bool) -> Seq<Seq<char>>
    decreases es.len(),
{
    if es.len() == 0 {
        seq![]
    } else {
        let e = es.last();
        entries_of_kind(es.drop_last(), files) + (if (if files {
            e.is_file
        } else {
            e.is_dir
        }) {
            seq![e.path@]
        } else {
            seq![]
        })
    }
}

/// The paths of a list of paths.
pub open spec fn path_views(v: Seq<PathWrapper>) -> Seq<Seq<char>> {
    v.map_values(|p: PathWrapper| p@)
}

/// The paths of the walked entries of one kind, in walking order.
pub fn walk_of_kind(entries: &Vec<WalkEntry>, files: bool) -> (r: Vec<PathWrapper>)
    ensures
        path_views(r@) == entries_of_kind(entries@, files),
{
    let mut out: Vec<PathWrapper> = Vec::new();
    let mut i: usize = 0;
    while i < entries.len()
        invariant
            i <= entries@.len(),
            path_views(out@) == entries_of_kind(entries@.subrange(0, i as int), files),
        decreases entries@.len() - i,
    {
        let ghost before = out@;
        assert(entries@.subrange(0, i + 1).drop_last() =~= entries@.subrange(0, i as int));
        let e = &entries[i];
        let keep = if files {
            e.is_file
        } else {
            e.is_dir
        };
        if keep {
            out.push(e.path.duplicate());
            assert(path_views(out@) =~= path_views(before).push(e.path@));
        }
        i = i + 1;
    }
    assert(entries@.subrange(0, entries@.len() as int) =~= entries@);
    out
}

/// The files among the walked entries, in walking order.
pub fn walk_files(entries: &Vec<WalkEntry>) -> (r: Vec<PathWrapper>)
    ensures
        path_views(r@) == entries_of_kind(entries@, true),
{
    walk_of_kind(entries, true)
}

/// The directories among the walked entries, in walking order.
pub fn walk_dirs(entries: &Vec<WalkEntry>) -> (r: Vec<PathWrapper>)
    ensures
        path_views(r@) == entries_of_kind(entries@, false),
{
    walk_of_kind(entries, false)
}

impl From<String> for PathWrapper {
    fn from(path: String) -> (r: Self) {
        PathWrapper(path)
    }
}

impl vstd::std_specs::convert::FromSpecImpl<String> for PathWrapper {
    open spec fn obeys_from_spec() -> bool {
        true
    }

    closed spec fn from_spec(v: String) -> PathWrapper {
        PathWrapper(v)
    }
}

} // verus!
