//! Path checks and normalization.

use crate::text::{contains_seq, contains_str};
use crate::text::{join_seq, split_seq};
use crate::toolkit::os::{
    body_comps, comps, components, kept_piece, lemma_body_comps_from, lemma_render_pieces,
    lemma_body_names, lemma_split_empty, lemma_split_join_names, lemma_text_starts_with_name,
    piece_comp, plain_name, render, render_range, Comp, PathComponent, lemma_components_render,
    canonical_comps,
};
use crate::toolkit::path::manager::PathManager;
use vstd::prelude::*;

verus! {

/// A path is safe when its text holds no `..` and it is not absolute.
pub open spec fn safe_path(p: Seq<char>) -> bool {
    !contains_seq(p, ".."@) && !(p.len() > 0 && p[0] == '/')
}

/// Whether the path holds no `..` and is relative.
pub fn is_safe_path(path: &PathManager) -> (b: bool)
    ensures
        b == safe_path(path@),
{
    let t = path.as_path();
    !contains_str(t, "..") && !(t.unicode_len() > 0 && t.get_char(0) == '/')
}

/// The normal components left after `..` has removed the component before it;
/// the root and `.` are dropped.
pub open spec fn normalized(cs: Seq<Comp>) -> Seq<Comp>
    decreases cs.len(),
{
    if cs.len() == 0 {
        seq![]
    } else {
        let r = normalized(cs.drop_last());
        match cs.last() {
            Comp::Normal(_) => r.push(cs.last()),
            Comp::Parent => if r.len() > 0 {
                r.drop_last()
            } else {
                r
            },
            _ => r,
        }
    }
}

/// The normalized path: `..` removes the component before it, `.` and the
/// root are dropped.
pub fn normalize_path(path: &PathManager) -> (r: PathManager)
    ensures
        r@ == render(normalized(components(path@))),
{
    let cs = path.components();
    let mut stack: Vec<PathComponent> = Vec::new();
    let mut i: usize = 0;
    assert(comps(cs@).subrange(0, 0) =~= Seq::<Comp>::empty());
    while i < cs.len()
        invariant
            i <= cs@.len(),
            comps(stack@) == normalized(comps(cs@).subrange(0, i as int)),
        decreases cs@.len() - i,
    {
        let ghost upto = comps(cs@).subrange(0, i + 1);
        assert(upto.drop_last() =~= comps(cs@).subrange(0, i as int));
        let ghost before = stack@;
        match &cs[i] {
            PathComponent::Normal(_) => {
                stack.push(cs[i].duplicate());
                assert(comps(stack@) =~= comps(before).push(upto.last()));
            },
            PathComponent::ParentDir => {
                if stack.len() > 0 {
                    stack.pop();
                    assert(comps(stack@) =~= comps(before).drop_last());
                }
            },
            _ => {},
        }
        i = i + 1;
    }
    assert(comps(cs@).subrange(0, cs@.len() as int) =~= comps(cs@));
    assert(comps(stack@).subrange(0, stack@.len() as int) =~= comps(stack@));
    let text = render_range(&stack, 0, stack.len());
    PathManager::new(text.as_str())
}

/// Normalizing leaves only normal components.
pub proof fn law_normalized_only_normal(cs: Seq<Comp>)
    ensures
        forall|i: int| 0 <= i < normalized(cs).len() ==> normalized(cs)[i] is Normal,
    decreases cs.len(),
{
    if cs.len() > 0 {
        law_normalized_only_normal(cs.drop_last());
    }
}

/// Every normal component among `cs` holds a plain name.
pub open spec fn normal_names_plain(cs: Seq<Comp>) -> bool {
    forall|i: int| 0 <= i < cs.len() ==> (#[trigger] cs[i] is Normal ==> plain_name(cs[i]->Normal_0))
}

proof fn lemma_components_plain(s: Seq<char>)
    ensures
        normal_names_plain(components(s)),
{
    let pieces = split_seq(s, seq!['/']);
    lemma_body_comps_from(pieces);
    crate::text::lemma_split_pieces_free(s, '/', 0);
    let b = body_comps(pieces);
    assert forall|i: int| 0 <= i < b.len() implies (#[trigger] b[i] is Normal ==> plain_name(
        b[i]->Normal_0,
    )) by {
        if b[i] is Normal {
            let j = choose|j: int|
                0 <= j < pieces.len() && kept_piece(pieces[j]) && b[i] == piece_comp(pieces[j]);
            assert(forall|k: int| 0 <= k < pieces[j].len() ==> pieces[j][k] != '/');
        }
    }
    let cs = components(s);
    assert forall|i: int| 0 <= i < cs.len() implies (#[trigger] cs[i] is Normal ==> plain_name(
        cs[i]->Normal_0,
    )) by {
        if s.len() > 0 && s[0] == '/' {
            if i > 0 {
                assert(cs[i] == b[i - 1]);
            }
        } else if pieces.len() > 0 && pieces[0] == seq!['.'] {
            if i > 0 {
                assert(cs[i] == b[i - 1]);
            }
        }
    }
}

proof fn lemma_normalized_plain(cs: Seq<Comp>)
    requires
        normal_names_plain(cs),
    ensures
        normal_names_plain(normalized(cs)),
    decreases cs.len(),
{
    if cs.len() > 0 {
        let pre = cs.drop_last();
        assert forall|i: int| 0 <= i < pre.len() implies (#[trigger] pre[i] is Normal ==> plain_name(
            pre[i]->Normal_0,
        )) by {
            assert(pre[i] == cs[i]);
        }
        lemma_normalized_plain(pre);
        let r = normalized(pre);
        let n = normalized(cs);
        assert forall|i: int| 0 <= i < n.len() implies (#[trigger] n[i] is Normal ==> plain_name(
            n[i]->Normal_0,
        )) by {
            if cs.last() is Normal {
                if i < r.len() {
                    assert(n[i] == r[i]);
                } else {
                    assert(n[i] == cs[cs.len() - 1]);
                }
            } else if cs.last() is Parent && r.len() > 0 {
                assert(n[i] == r[i]);
            } else {
                assert(n[i] == r[i]);
            }
        }
    }
}

proof fn lemma_normalized_fixed(cs: Seq<Comp>)
    requires
        forall|i: int| 0 <= i < cs.len() ==> #[trigger] cs[i] is Normal,
    ensures
        normalized(cs) == cs,
    decreases cs.len(),
{
    if cs.len() > 0 {
        let pre = cs.drop_last();
        assert forall|i: int| 0 <= i < pre.len() implies #[trigger] pre[i] is Normal by {
            assert(pre[i] == cs[i]);
        }
        lemma_normalized_fixed(pre);
        assert(cs.last() == cs[cs.len() - 1]);
        assert(pre.push(cs.last()) =~= cs);
    }
}

/// The names of a list of normal components.
pub open spec fn comp_names(cs: Seq<Comp>) -> Seq<Seq<char>> {
    cs.map_values(|c: Comp| c->Normal_0)
}

/// The path `normalize_path` writes holds only normal components (no `.`,
/// `..` or root), and they are the normalized ones.
pub proof fn law_normalized_text_only_normal(s: Seq<char>)
    ensures
        components(render(normalized(components(s)))) == normalized(components(s)),
        forall|i: int|
            0 <= i < components(render(normalized(components(s)))).len() ==> #[trigger] components(
                render(normalized(components(s))),
            )[i] is Normal,
{
    let cs = normalized(components(s));
    lemma_components_plain(s);
    lemma_normalized_plain(components(s));
    law_normalized_only_normal(components(s));
    assert(canonical_comps(cs)) by {
        if cs.len() > 0 {
            assert(cs[0] is Normal);
        }
        assert forall|i: int| 0 <= i < cs.len() implies crate::toolkit::os::body_comp_ok(#[trigger] cs[i]) by {
            assert(cs[i] is Normal);
        }
    }
    lemma_components_render(cs);
}

/// Normalizing a normalized path changes nothing: `normalize_path` is idempotent.
pub proof fn law_normalize_idempotent(s: Seq<char>)
    ensures
        render(normalized(components(render(normalized(components(s))))))
            == render(normalized(components(s))),
{
    let cs = normalized(components(s));
    lemma_components_plain(s);
    lemma_normalized_plain(components(s));
    law_normalized_only_normal(components(s));
    let names = comp_names(cs);
    assert forall|i: int| 0 <= i < names.len() implies kept_piece(#[trigger] names[i]) && piece_comp(
        names[i],
    ) == cs[i] by {
        assert(cs[i] is Normal);
        assert(plain_name(cs[i]->Normal_0));
    }
    assert forall|i: int, k: int| 0 <= i < names.len() && 0 <= k < names[i].len() implies #[trigger] names[i][k] != '/' by {
        assert(cs[i] is Normal);
        assert(plain_name(cs[i]->Normal_0));
    }
    assert(body_comps(names) =~= cs) by {
        lemma_body_names(names, cs);
    }
    lemma_render_pieces(names);
    let text = render(cs);
    if names.len() == 0 {
        assert(cs =~= Seq::<Comp>::empty());
        assert(text =~= Seq::<char>::empty());
        lemma_split_empty();
        assert(seq![Seq::<char>::empty()][0] != seq!['.']);
        assert(components(text) =~= Seq::<Comp>::empty());
        assert(normalized(components(text)) =~= Seq::<Comp>::empty());
    } else {
        lemma_split_join_names(names);
        assert(text == join_seq(names, seq!['/']));
        crate::text::lemma_join_split(text, seq!['/'], 0);
        assert(names[0].len() > 0);
        assert(kept_piece(names[0]));
        lemma_text_starts_with_name(names);
        assert(components(text) == body_comps(names));
        lemma_normalized_fixed(cs);
    }
}

/// Whether `path` lies within `dir`: `dir`'s components are its first components.
pub fn is_within_dir(path: &PathManager, dir: &PathManager) -> (b: bool)
    ensures
        b == crate::toolkit::os::path_starts_with(path@, dir@),
{
    path.starts_with(dir)
}

} // verus!
