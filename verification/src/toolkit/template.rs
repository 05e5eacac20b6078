//! Text templates with `{key}` placeholders.

use crate::text::{concat3, contains_seq, replace_seq, replace_str};
use vstd::prelude::*;

verus! {

/// The placeholder for `key`: `{key}`.
pub open spec fn placeholder(key: Seq<char>) -> Seq<char> {
    "{"@ + key + "}"@
}

/// `content` with every `{key}` replaced by `value`.
pub open spec fn fill(content: Seq<char>, key: Seq<char>, value: Seq<char>) -> Seq<char> {
    replace_seq(content, placeholder(key), value)
}

/// `content` with the replacements applied one after another, in order.
pub open spec fn fill_all(content: Seq<char>, replacements: Seq<(Seq<char>, Seq<char>)>) -> Seq<char>
    decreases replacements.len(),
{
    if replacements.len() == 0 {
        content
    } else {
        fill(
            fill_all(content, replacements.drop_last()),
            replacements.last().0,
            replacements.last().1,
        )
    }
}

/// The views of a list of replacements.
pub open spec fn pair_views(v: Seq<(&str, &str)>) -> Seq<(Seq<char>, Seq<char>)> {
    v.map_values(|p: (&str, &str)| (p.0@, p.1@))
}

/// Replaces every `{key}` in `content` by `value`.
pub fn fill_text(content: &str, key: &str, value: &str) -> (r: String)
    ensures
        r@ == fill(content@, key@, value@),
{
    let pat = concat3("{", key, "}");
    proof {
        reveal_strlit("{");
        reveal_strlit("}");
    }
    assert(pat@.len() >= 2);
    replace_str(content, pat.as_str(), value)
}

/// Applies the replacements one after another, in order.
pub fn fill_all_text(content: &str, replacements: &Vec<(&str, &str)>) -> (r: String)
    ensures
        r@ == fill_all(content@, pair_views(replacements@)),
{
    let mut out = content.to_owned();
    let mut i: usize = 0;
    assert(pair_views(replacements@).subrange(0, 0) =~= Seq::<(Seq<char>, Seq<char>)>::empty());
    while i < replacements.len()
        invariant
            i <= replacements@.len(),
            out@ == fill_all(content@, pair_views(replacements@).subrange(0, i as int)),
        decreases replacements@.len() - i,
    {
        let (k, v) = replacements[i];
        assert(pair_views(replacements@).subrange(0, i + 1).drop_last() =~= pair_views(
            replacements@,
        ).subrange(0, i as int));
        out = fill_text(out.as_str(), k, v);
        i = i + 1;
    }
    assert(pair_views(replacements@).subrange(0, replacements@.len() as int) =~= pair_views(
        replacements@,
    ));
    out
}

/// A template borrowed from its text.
pub struct Template<'a> {
    content: &'a str,
}

impl<'a> Template<'a> {
    /// The text of the template.
    pub closed spec fn text(&self) -> Seq<char> {
        self.content@
    }

    /// A template over `content`.
    pub fn new(content: &'a str) -> (r: Self)
        ensures
            r.text() == content@,
    {
        Template { content }
    }

    /// The text with every `{key}` replaced by `value`.
    pub fn replace(&self, key: &str, value: &str) -> (r: TemplateOwned)
        ensures
            r.text() == fill(self.text(), key@, value@),
    {
        TemplateOwned { content: fill_text(self.content, key, value) }
    }

    /// The text with the replacements applied one after another, in order.
    pub fn replace_all(&self, replacements: &Vec<(&str, &str)>) -> (r: TemplateOwned)
        ensures
            r.text() == fill_all(self.text(), pair_views(replacements@)),
    {
        TemplateOwned { content: fill_all_text(self.content, replacements) }
    }
}

/// A template that owns its text.
pub struct TemplateOwned {
    content: String,
}

impl TemplateOwned {
    /// The text of the template.
    pub closed spec fn text(&self) -> Seq<char> {
        self.content@
    }

    /// A template over `content`.
    pub fn from_string(content: String) -> (r: Self)
        ensures
            r.text() == content@,
    {
        TemplateOwned { content }
    }

    /// Replaces every `{key}` by `value`; gives the template back for chaining.
    pub fn replace(&mut self, key: &str, value: &str) -> (r: &mut Self)
        ensures
            r.text() == fill(old(self).text(), key@, value@),
            *final(self) == *final(r),
    {
        self.content = fill_text(self.content.as_str(), key, value);
        self
    }

    /// Applies the replacements one after another, in order; gives the
    /// template back for chaining.
    pub fn replace_all(&mut self, replacements: &Vec<(&str, &str)>) -> (r: &mut Self)
        ensures
            r.text() == fill_all(old(self).text(), pair_views(replacements@)),
            *final(self) == *final(r),
    {
        self.content = fill_all_text(self.content.as_str(), replacements);
        self
    }

    /// The text.
    pub fn as_str(&self) -> (r: &str)
        ensures
            r@ == self.text(),
    {
        self.content.as_str()
    }

    /// The text, as an owned string.
    pub fn into_string(self) -> (r: String)
        ensures
            r@ == self.text(),
    {
        self.content
    }
}

impl<'a> From<&'a str> for Template<'a> {
    fn from(content: &'a str) -> (r: Self)
        ensures
            r.text() == content@,
    {
        Template { content }
    }
}

impl<'a> vstd::std_specs::convert::FromSpecImpl<&'a str> for Template<'a> {
    open spec fn obeys_from_spec() -> bool {
        true
    }

    closed spec fn from_spec(v: &'a str) -> Template<'a> {
        Template { content: v }
    }
}

impl From<String> for TemplateOwned {
    fn from(content: String) -> (r: Self)
        ensures
            r.text() == content@,
    {
        TemplateOwned { content }
    }
}

impl vstd::std_specs::convert::FromSpecImpl<String> for TemplateOwned {
    open spec fn obeys_from_spec() -> bool {
        true
    }

    closed spec fn from_spec(v: String) -> TemplateOwned {
        TemplateOwned { content: v }
    }
}

/// What `From` gives is known outside this module by its text.
pub proof fn lemma_from_text(content: String)
    ensures
        <TemplateOwned as vstd::std_specs::convert::FromSpec<String>>::from_spec(content).text()
            == content@,
{
}

/// Filling a template leaves it unchanged when its text holds no `{key}`.
pub proof fn law_fill_absent(content: Seq<char>, key: Seq<char>, value: Seq<char>)
    requires
        !contains_seq(content, placeholder(key)),
    ensures
        fill(content, key, value) == content,
{
    crate::text::lemma_replace_absent(content, placeholder(key), value);
}


} // verus!
