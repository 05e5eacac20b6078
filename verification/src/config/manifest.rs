//! Editing a manifest in place: the dependency and member entries that the
//! commands record. The file is read and written as a `toml_edit` document, so
//! that every line the edit does not touch keeps its layout; what the edit does
//! to the document's entries is stated and proved here.

use crate::text::{concat3, eq_str};
use toml_edit::{Array, DocumentMut, Item, Table, TomlError, Value};
use vstd::prelude::*;

verus! {

// ───────────────────────────── the document ─────────────────────────────

#[verifier::external_type_specification]
#[verifier::external_body]
pub struct ExDocumentMut(DocumentMut);

#[verifier::external_type_specification]
#[verifier::external_body]
pub struct ExTable(Table);

#[verifier::external_type_specification]
#[verifier::external_body]
pub struct ExArray(Array);

#[verifier::external_type_specification]
#[verifier::external_body]
pub struct ExTomlError(TomlError);

/// An item of a manifest, as far as the edits read it: a table with its
/// entries, an array with, for each of its slots, the text of the value there
/// where that value is a string, a string, or anything else (an inline table, a
/// number, an array of tables).
pub enum TomlShape {
    Table(Map<Seq<char>, TomlShape>),
    Array(Seq<Option<Seq<char>>>),
    Str(Seq<char>),
    Other,
}

/// What a document holds: the entries of its root table.
pub uninterp spec fn document_entries(doc: DocumentMut) -> Map<Seq<char>, TomlShape>;

/// What a table holds: its entries by key (a placeholder left by an empty
/// slot is no entry).
pub uninterp spec fn table_entries(t: Table) -> Map<Seq<char>, TomlShape>;

/// What an array holds: for each of its slots (`Array::len` counts them), the
/// text of the value there where it is a string; a slot holding no value, or a
/// value that is no string, gives nothing.
pub uninterp spec fn array_entries(a: Array) -> Seq<Option<Seq<char>>>;

/// What a text holds read as a TOML document: the entries of its root table,
/// or nothing where the text is no TOML document.
pub uninterp spec fn parsed_manifest(text: Seq<char>) -> Option<Map<Seq<char>, TomlShape>>;

/// Whether the root item of a document is a table. A parsed document's
/// always is; only an item swapped in through `as_item_mut` makes it not so.
pub uninterp spec fn document_root_is_table(doc: DocumentMut) -> bool;

/// Whether a document, written out, reads back with the entries it holds: its
/// root table does (see `table_reads_back`), and the text around it is
/// whitespace and comments.
pub uninterp spec fn document_reads_back(doc: DocumentMut) -> bool;

/// Whether a table, written out inside a document, reads back with the entries
/// it holds: no table within it is an implicit one left empty or an empty
/// array of tables (both are not written), and every key, value and piece of
/// layout within it is written as valid TOML (layout being whitespace and
/// comments).
pub uninterp spec fn table_reads_back(t: Table) -> bool;

/// Whether an array, written out, reads back with the elements it holds: every
/// slot holds a value (a slot without one is not written), and each value and
/// the layout around it is written as valid TOML.
pub uninterp spec fn array_reads_back(a: Array) -> bool;

/// Whether a text is layout only: spaces, tabs and line breaks.
pub open spec fn layout_only(s: Seq<char>) -> bool {
    forall|i: int| 0 <= i < s.len() ==> s[i] == ' ' || s[i] == '\t' || s[i] == '\n'
}

/// Whether a map of entries holds at least one.
pub open spec fn holds_entry(m: Map<Seq<char>, TomlShape>) -> bool {
    exists|k: Seq<char>| m.contains_key(k)
}

/// `FromStr` of `toml_edit::DocumentMut`: the text read as a document.
/// Claimed: it succeeds exactly on the texts that `parsed_manifest` gives
/// entries for, and the document then holds those entries; its root is a
/// table, and, as the document keeps the text it was read from (keys, values
/// and layout as written), it reads back.
#[verifier::external_body]
fn parse_document(text: &str) -> (r: Result<DocumentMut, TomlError>)
    ensures
        r is Ok <==> parsed_manifest(text@) is Some,
        r matches Ok(doc) ==> document_entries(doc) == parsed_manifest(text@)->0,
        r matches Ok(doc) ==> document_root_is_table(doc) && document_reads_back(doc),
{
    text.parse::<DocumentMut>()
}

/// `Display` of `toml_edit::DocumentMut`: the document written out, every
/// table under a header with its path and every value in TOML syntax. It
/// panics where the root is not a table. Claimed: where the document reads
/// back, the text read as a document holds the document's entries. Its layout
/// (comments, whitespace, the order of tables) is not stated.
#[verifier::external_body]
fn render_document(doc: &DocumentMut) -> (r: String)
    requires
        document_root_is_table(*doc),
    ensures
        document_reads_back(*doc) ==> parsed_manifest(r@) == Some(document_entries(*doc)),
{
    doc.to_string()
}

/// `toml_edit::DocumentMut::as_table_mut`: the root table, borrowed; it
/// panics where the root is not a table. Claimed: the table holds the
/// document's entries, and the document afterwards holds what the table holds
/// when the borrow ends, with a table at its root; it reads back where it did
/// and the table still does.
#[verifier::external_body]
fn root_table<'a>(doc: &'a mut DocumentMut) -> (r: &'a mut Table)
    requires
        document_root_is_table(*old(doc)),
    ensures
        table_entries(*r) == document_entries(*old(doc)),
        document_entries(*final(doc)) == table_entries(*final(r)),
        document_root_is_table(*final(doc)),
        document_reads_back(*old(doc)) ==> table_reads_back(*r),
        document_reads_back(*old(doc)) && table_reads_back(*final(r)) ==> document_reads_back(*final(doc)),
{
    doc.as_table_mut()
}

/// `toml_edit::Table::contains_key`: whether the table holds an entry under
/// `key`.
#[verifier::external_body]
fn contains_key(t: &Table, key: &str) -> (r: bool)
    ensures
        r == table_entries(*t).contains_key(key@),
{
    t.contains_key(key)
}

/// A new, empty item that an edit puts into a table.
pub enum NewItem {
    EmptyTable,
    EmptyArray,
}

/// The shape of a new item.
pub open spec fn new_item_shape(item: NewItem) -> TomlShape {
    match item {
        NewItem::EmptyTable => TomlShape::Table(Map::empty()),
        NewItem::EmptyArray => TomlShape::Array(Seq::empty()),
    }
}

/// `toml_edit::Table::insert`: puts a new empty table or array under `key`, in
/// place of what was there. Claimed: the other entries stay as they are; the
/// new table is not implicit (it is written under its own header), so the
/// table reads back where it did.
#[verifier::external_body]
fn insert_item(t: &mut Table, key: &str, item: NewItem)
    ensures
        table_entries(*final(t)) == table_entries(*old(t)).insert(key@, new_item_shape(item)),
        table_reads_back(*old(t)) ==> table_reads_back(*final(t)),
{
    let item = match item {
        NewItem::EmptyTable => Item::Table(Table::new()),
        NewItem::EmptyArray => Item::Value(Value::Array(Array::new())),
    };
    t.insert(key, item);
}

/// `IndexMut` of `toml_edit::Table` with `toml_edit::value`: sets `key` to the
/// string `val`, written with its default quoting. Claimed: the other entries
/// stay as they are, and the table reads back where it did.
#[verifier::external_body]
fn set_string(t: &mut Table, key: &str, val: &str)
    ensures
        table_entries(*final(t)) == table_entries(*old(t)).insert(key@, TomlShape::Str(val@)),
        table_reads_back(*old(t)) ==> table_reads_back(*final(t)),
{
    t[key] = toml_edit::value(val);
}

/// `toml_edit::Table::get_mut` with `Item::as_table_mut`: the table under
/// `key`, borrowed, where the entry there is a table. Claimed: the borrowed
/// table holds that entry's entries, and the outer table afterwards holds it as
/// it is when the borrow ends; without a table there, nothing changes. The
/// outer table reads back where it did and the inner one, left with an entry
/// (so written even where it is implicit), still does.
#[verifier::external_body]
fn table_at<'a>(t: &'a mut Table, key: &str) -> (r: Option<&'a mut Table>)
    ensures
        r is Some <==> table_entries(*old(t)).get(key@) matches Some(TomlShape::Table(_)),
        r is None ==> *final(t) == *old(t),
        match r {
            Some(sub) => {
                &&& table_entries(*old(t))[key@] == TomlShape::Table(table_entries(*sub))
                &&& table_entries(*final(t)) == table_entries(*old(t)).insert(
                    key@,
                    TomlShape::Table(table_entries(*final(sub))),
                )
                &&& table_reads_back(*old(t)) ==> table_reads_back(*sub)
                &&& table_reads_back(*old(t)) && table_reads_back(*final(sub)) && holds_entry(
                    table_entries(*final(sub)),
                ) ==> table_reads_back(*final(t))
            },
            None => true,
        },
{
    t.get_mut(key).and_then(Item::as_table_mut)
}

/// `toml_edit::Table::get_mut` with `Item::as_array_mut`: the array under
/// `key`, borrowed, where the entry there is an array. Claimed as for
/// `table_at`.
#[verifier::external_body]
fn array_at<'a>(t: &'a mut Table, key: &str) -> (r: Option<&'a mut Array>)
    ensures
        r is Some <==> table_entries(*old(t)).get(key@) matches Some(TomlShape::Array(_)),
        r is None ==> *final(t) == *old(t),
        match r {
            Some(a) => {
                &&& table_entries(*old(t))[key@] == TomlShape::Array(array_entries(*a))
                &&& table_entries(*final(t)) == table_entries(*old(t)).insert(
                    key@,
                    TomlShape::Array(array_entries(*final(a))),
                )
                &&& table_reads_back(*old(t)) ==> array_reads_back(*a)
                &&& table_reads_back(*old(t)) && array_reads_back(*final(a)) ==> table_reads_back(
                    *final(t),
                )
            },
            None => true,
        },
{
    t.get_mut(key).and_then(Item::as_array_mut)
}

/// `toml_edit::Table::decor_mut` with `Decor::set_prefix` and
/// `Decor::set_suffix`: the whitespace around the table's header. Claimed: its
/// entries stay as they are, and, the new layout being whitespace, it reads
/// back where it did.
#[verifier::external_body]
fn set_decor(t: &mut Table, prefix: &str, suffix: &str)
    requires
        layout_only(prefix@),
        layout_only(suffix@),
    ensures
        table_entries(*final(t)) == table_entries(*old(t)),
        table_reads_back(*old(t)) ==> table_reads_back(*final(t)),
{
    let decor = t.decor_mut();
    decor.set_prefix(prefix);
    decor.set_suffix(suffix);
}

/// An element's text, where it has one.
pub open spec fn opt_text(o: Option<String>) -> Option<Seq<char>> {
    match o {
        Some(s) => Some(s@),
        None => None,
    }
}

/// `toml_edit::Array::len`, `Array::get` and `Value::as_str`: slot by slot,
/// the text of the value there where it is a string.
#[verifier::external_body]
fn array_texts(a: &Array) -> (r: Vec<Option<String>>)
    ensures
        r@.len() == array_entries(*a).len(),
        forall|i: int| 0 <= i < r@.len() ==> opt_text(#[trigger] r@[i]) == array_entries(*a)[i],
{
    (0..a.len()).map(|i| a.get(i).and_then(|v| v.as_str()).map(String::from)).collect()
}

/// `toml_edit::Array::remove`: takes out the slot at `index`; it panics past
/// the end and where the slot holds no value, so the slot must hold a string.
/// Claimed: the other slots stay, in order, and the array reads back where it
/// did.
#[verifier::external_body]
fn remove_element(a: &mut Array, index: usize)
    requires
        index < array_entries(*old(a)).len(),
        array_entries(*old(a))[index as int] is Some,
    ensures
        array_entries(*final(a)) == array_entries(*old(a)).remove(index as int),
        array_reads_back(*old(a)) ==> array_reads_back(*final(a)),
{
    a.remove(index);
}

/// `toml_edit::Array::push`: appends a slot holding the string `s`, written
/// with its default quoting and layout. Claimed: the array reads back where it
/// did.
#[verifier::external_body]
fn push_string(a: &mut Array, s: &str)
    ensures
        array_entries(*final(a)) == array_entries(*old(a)).push(Some(s@)),
        array_reads_back(*old(a)) ==> array_reads_back(*final(a)),
{
    a.push(s);
}

// ───────────────────────────── the edits ─────────────────────────────

/// An edit that a command makes to a manifest.
pub enum ManifestEdit {
    /// `key = "version"` under `[dependencies]`.
    Dependency { key: String, version: String },
    /// `key = "version"` under `[workspace.dependencies]`.
    WorkspaceDependency { key: String, version: String },
    /// A path appended to `members` under `[workspace]`.
    Member { path: String },
    /// A path taken out of `members` under `[workspace]`.
    RemoveMember { path: String },
}

/// Why an edit was not made.
pub enum ManifestError {
    /// The text is no TOML document.
    Parse(TomlError),
    /// The edit was refused, with this message.
    Refused(String),
}

/// The entries with an empty table under `key`, unless an entry is there.
pub open spec fn with_table(m: Map<Seq<char>, TomlShape>, key: Seq<char>) -> Map<Seq<char>, TomlShape> {
    if m.contains_key(key) {
        m
    } else {
        m.insert(key, TomlShape::Table(Map::empty()))
    }
}

/// The entries with the table under `key` changed by `f`; as they are where
/// no table is under `key`.
pub open spec fn within(
    m: Map<Seq<char>, TomlShape>,
    key: Seq<char>,
    f: spec_fn(Map<Seq<char>, TomlShape>) -> Map<Seq<char>, TomlShape>,
) -> Map<Seq<char>, TomlShape> {
    match m.get(key) {
        Some(TomlShape::Table(sub)) => m.insert(key, TomlShape::Table(f(sub))),
        _ => m,
    }
}

/// The entries with `key = "version"` recorded in their `dependencies` table,
/// which is made where it is missing.
pub open spec fn with_dependency(m: Map<Seq<char>, TomlShape>, key: Seq<char>, version: Seq<char>) -> Map<
    Seq<char>,
    TomlShape,
> {
    within(
        with_table(m, "dependencies"@),
        "dependencies"@,
        |d: Map<Seq<char>, TomlShape>| d.insert(key, TomlShape::Str(version)),
    )
}

/// The entries of a workspace table with `member` appended to its `members`
/// array (made where it is missing), unless that array lists it already.
pub open spec fn with_member_listed(ws: Map<Seq<char>, TomlShape>, member: Seq<char>) -> Map<
    Seq<char>,
    TomlShape,
> {
    let ws1 = if ws.contains_key("members"@) {
        ws
    } else {
        ws.insert("members"@, TomlShape::Array(Seq::empty()))
    };
    match ws1.get("members"@) {
        Some(TomlShape::Array(items)) => if items.contains(Some(member)) {
            ws1
        } else {
            ws1.insert("members"@, TomlShape::Array(items.push(Some(member))))
        },
        _ => ws1,
    }
}

/// The position of the first element that is the text `member`, if any.
pub open spec fn member_position(items: Seq<Option<Seq<char>>>, member: Seq<char>) -> Option<int> {
    if items.contains(Some(member)) {
        Some(
            choose|i: int|
                0 <= i < items.len() && items[i] == Some(member) && forall|j: int|
                    0 <= j < i ==> items[j] != Some(member),
        )
    } else {
        None
    }
}

/// The entries of a workspace table with the first `member` taken out of its
/// `members` array; as they are where it does not list `member`.
pub open spec fn without_member_listed(ws: Map<Seq<char>, TomlShape>, member: Seq<char>) -> Map<
    Seq<char>,
    TomlShape,
> {
    match ws.get("members"@) {
        Some(TomlShape::Array(items)) => match member_position(items, member) {
            Some(i) => ws.insert("members"@, TomlShape::Array(items.remove(i))),
            None => ws,
        },
        _ => ws,
    }
}

/// The entries with `member` taken out of the `members` array of their
/// `workspace` table.
pub open spec fn without_member(m: Map<Seq<char>, TomlShape>, member: Seq<char>) -> Map<Seq<char>, TomlShape> {
    within(m, "workspace"@, |ws: Map<Seq<char>, TomlShape>| without_member_listed(ws, member))
}

/// Whether the workspace of a manifest with entries `m` lists `member`.
pub open spec fn lists_member(m: Map<Seq<char>, TomlShape>, member: Seq<char>) -> bool {
    &&& m.get("workspace"@) matches Some(TomlShape::Table(ws))
    &&& ws.get("members"@) matches Some(TomlShape::Array(items))
    &&& items.contains(Some(member))
}

/// The entries with `key = "version"` recorded in the `dependencies` table of
/// their `workspace` table; both are made where they are missing.
pub open spec fn with_workspace_dependency(
    m: Map<Seq<char>, TomlShape>,
    key: Seq<char>,
    version: Seq<char>,
) -> Map<Seq<char>, TomlShape> {
    within(
        with_table(m, "workspace"@),
        "workspace"@,
        |ws: Map<Seq<char>, TomlShape>| with_dependency(ws, key, version),
    )
}

/// The entries with `member` listed in the `members` array of their
/// `workspace` table; both are made where they are missing.
pub open spec fn with_member(m: Map<Seq<char>, TomlShape>, member: Seq<char>) -> Map<Seq<char>, TomlShape> {
    within(
        with_table(m, "workspace"@),
        "workspace"@,
        |ws: Map<Seq<char>, TomlShape>| with_member_listed(ws, member),
    )
}

/// The entries of a manifest after an edit.
pub open spec fn edited(m: Map<Seq<char>, TomlShape>, e: ManifestEdit) -> Map<Seq<char>, TomlShape> {
    match e {
        ManifestEdit::Dependency { key, version } => with_dependency(m, key@, version@),
        ManifestEdit::WorkspaceDependency { key, version } => with_workspace_dependency(m, key@, version@),
        ManifestEdit::Member { path } => with_member(m, path@),
        ManifestEdit::RemoveMember { path } => without_member(m, path@),
    }
}

/// Whether an edit is refused on a manifest with entries `m`: a member that
/// the workspace lists already, or one to take out that it does not list.
pub open spec fn refused(m: Map<Seq<char>, TomlShape>, e: ManifestEdit) -> bool {
    match e {
        ManifestEdit::Member { path } => lists_member(m, path@),
        ManifestEdit::RemoveMember { path } => !lists_member(m, path@),
        _ => false,
    }
}

/// The message of a refused edit.
pub open spec fn refusal_message(e: ManifestEdit) -> Seq<char> {
    match e {
        ManifestEdit::Member { path } => "Member '"@ + path@ + "' already exists in workspace"@,
        ManifestEdit::RemoveMember { path } => "Member '"@ + path@ + "' is not in workspace"@,
        _ => Seq::empty(),
    }
}

/// Makes an empty table under `key` unless an entry is there.
fn ensure_table(t: &mut Table, key: &str)
    ensures
        table_entries(*final(t)) == with_table(table_entries(*old(t)), key@),
        table_reads_back(*old(t)) ==> table_reads_back(*final(t)),
{
    if !contains_key(t, key) {
        insert_item(t, key, NewItem::EmptyTable);
    }
}

/// Records `key = "version"` in the `dependencies` table of `t`, framed by
/// blank lines.
fn record_dependency(t: &mut Table, key: &str, version: &str)
    ensures
        table_entries(*final(t)) == with_dependency(table_entries(*old(t)), key@, version@),
        table_reads_back(*old(t)) ==> table_reads_back(*final(t)),
{
    ensure_table(t, "dependencies");
    match table_at(t, "dependencies") {
        Some(deps) => {
            set_string(deps, key, version);
            proof {
                reveal_strlit("\n");
            }
            set_decor(deps, "\n", "\n");
            assert(table_entries(*deps).contains_key(key@));
        },
        None => {},
    }
    proof {
        reveal_strlit("dependencies");
    }
}

/// Appends `member` to the `members` array of the workspace table `ws`,
/// refused where that array lists it already.
fn record_member(ws: &mut Table, member: &str) -> (r: Result<(), String>)
    ensures
        table_entries(*final(ws)) == with_member_listed(table_entries(*old(ws)), member@),
        table_reads_back(*old(ws)) ==> table_reads_back(*final(ws)),
        r is Err <==> ({
            let w = table_entries(*old(ws));
            &&& w.get("members"@) matches Some(TomlShape::Array(items))
            &&& items.contains(Some(member@))
        }),
        r matches Err(e) ==> e@ == "Member '"@ + member@ + "' already exists in workspace"@,
{
    if !contains_key(ws, "members") {
        insert_item(ws, "members", NewItem::EmptyArray);
    }
    let ghost mid = table_entries(*ws);
    match array_at(ws, "members") {
        Some(members) => {
            let listed = array_texts(members);
            if lists(&listed, member) {
                assert(array_entries(*members).contains(Some(member@)));
                assert(mid.insert("members"@, TomlShape::Array(array_entries(*members))) =~= mid);
                return Err(concat3("Member '", member, "' already exists in workspace"));
            }
            assert(!array_entries(*members).contains(Some(member@))) by {
                let items = array_entries(*members);
                if items.contains(Some(member@)) {
                    let k = choose|k: int| 0 <= k < items.len() && items[k] == Some(member@);
                    assert(opt_text(listed@[k]) == items[k]);
                }
            }
            push_string(members, member);
            Ok(())
        },
        None => Ok(()),
    }
}

/// Takes the first `member` out of the `members` array of the workspace table
/// `ws`, refused where that array does not list it.
fn drop_member(ws: &mut Table, member: &str) -> (r: Result<(), String>)
    ensures
        table_entries(*final(ws)) == without_member_listed(table_entries(*old(ws)), member@),
        table_reads_back(*old(ws)) ==> table_reads_back(*final(ws)),
        r is Err <==> !({
            let w = table_entries(*old(ws));
            &&& w.get("members"@) matches Some(TomlShape::Array(items))
            &&& items.contains(Some(member@))
        }),
        r matches Err(e) ==> e@ == "Member '"@ + member@ + "' is not in workspace"@,
{
    let ghost w = table_entries(*ws);
    match array_at(ws, "members") {
        Some(members) => {
            let listed = array_texts(members);
            let ghost items = array_entries(*members);
            match first_listed(&listed, member) {
                Some(i) => {
                    proof {
                        assert forall|j: int| 0 <= j < i implies items[j] != Some(member@) by {
                            assert(opt_text(listed@[j]) == items[j]);
                        }
                        assert(opt_text(listed@[i as int]) == items[i as int]);
                        lemma_first_member(items, member@, i as int);
                    }
                    remove_element(members, i);
                    Ok(())
                },
                None => {
                    assert(!items.contains(Some(member@))) by {
                        if items.contains(Some(member@)) {
                            let k = choose|k: int| 0 <= k < items.len() && items[k] == Some(member@);
                            assert(opt_text(listed@[k]) == items[k]);
                        }
                    }
                    assert(w.insert("members"@, TomlShape::Array(items)) =~= w);
                    Err(concat3("Member '", member, "' is not in workspace"))
                },
            }
        },
        None => Err(concat3("Member '", member, "' is not in workspace")),
    }
}

/// The first element that is `member` is at `i`.
proof fn lemma_first_member(items: Seq<Option<Seq<char>>>, member: Seq<char>, i: int)
    requires
        0 <= i < items.len(),
        items[i] == Some(member),
        forall|j: int| 0 <= j < i ==> items[j] != Some(member),
    ensures
        member_position(items, member) == Some(i),
{
    assert(items.contains(Some(member)));
    let c = choose|c: int|
        0 <= c < items.len() && items[c] == Some(member) && forall|j: int|
            0 <= j < c ==> items[j] != Some(member);
    if c < i {
        assert(items[c] != Some(member));
    }
    if i < c {
        assert(items[i] != Some(member));
    }
}

/// The position of the first text that is `member`.
fn first_listed(listed: &Vec<Option<String>>, member: &str) -> (r: Option<usize>)
    ensures
        match r {
            Some(i) => i < listed@.len() && opt_text(listed@[i as int]) == Some(member@) && forall|j: int|
                0 <= j < i ==> opt_text(#[trigger] listed@[j]) != Some(member@),
            None => forall|j: int| 0 <= j < listed@.len() ==> opt_text(#[trigger] listed@[j]) != Some(member@),
        },
{
    let mut i: usize = 0;
    while i < listed.len()
        invariant
            i <= listed@.len(),
            forall|j: int| 0 <= j < i ==> opt_text(#[trigger] listed@[j]) != Some(member@),
        decreases listed@.len() - i,
    {
        let found = match &listed[i] {
            Some(s) => eq_str(s.as_str(), member),
            None => false,
        };
        if found {
            return Some(i);
        }
        i = i + 1;
    }
    None
}

/// Whether one of the texts is `member`.
fn lists(listed: &Vec<Option<String>>, member: &str) -> (r: bool)
    ensures
        r <==> exists|j: int| 0 <= j < listed@.len() && opt_text(#[trigger] listed@[j]) == Some(member@),
{
    let mut i: usize = 0;
    while i < listed.len()
        invariant
            i <= listed@.len(),
            forall|j: int| 0 <= j < i ==> opt_text(#[trigger] listed@[j]) != Some(member@),
        decreases listed@.len() - i,
    {
        let found = match &listed[i] {
            Some(s) => eq_str(s.as_str(), member),
            None => false,
        };
        if found {
            assert(opt_text(listed@[i as int]) == Some(member@));
            return true;
        }
        i = i + 1;
    }
    false
}

/// Makes an edit on a manifest document: records a dependency, a workspace
/// dependency, or a workspace member, making the tables and the array it goes
/// into where they are missing. A member that the workspace lists already is
/// refused, with a message naming it; where an entry on the way is not a table
/// (or `members` not an array), nothing is recorded there.
pub fn apply_edit(doc: &mut DocumentMut, edit: &ManifestEdit) -> (r: Result<(), String>)
    requires
        document_root_is_table(*old(doc)),
    ensures
        document_entries(*final(doc)) == edited(document_entries(*old(doc)), *edit),
        document_root_is_table(*final(doc)),
        r is Ok && document_reads_back(*old(doc)) ==> document_reads_back(*final(doc)),
        r is Err <==> refused(document_entries(*old(doc)), *edit),
        r matches Err(e) ==> e@ == refusal_message(*edit),
{
    let root = root_table(doc);
    match edit {
        ManifestEdit::Dependency { key, version } => {
            record_dependency(root, key.as_str(), version.as_str());
            Ok(())
        },
        ManifestEdit::WorkspaceDependency { key, version } => {
            ensure_table(root, "workspace");
            match table_at(root, "workspace") {
                Some(ws) => {
                    record_dependency(ws, key.as_str(), version.as_str());
                    proof {
                        reveal_strlit("dependencies");
                    }
                    assert(table_entries(*ws).contains_key("dependencies"@));
                },
                None => {},
            }
            proof {
                reveal_strlit("workspace");
            }
            Ok(())
        },
        ManifestEdit::Member { path } => {
            ensure_table(root, "workspace");
            let r = match table_at(root, "workspace") {
                Some(ws) => {
                    let r = record_member(ws, path.as_str());
                    proof {
                        reveal_strlit("members");
                    }
                    assert(table_entries(*ws).contains_key("members"@));
                    r
                },
                None => Ok(()),
            };
            proof {
                reveal_strlit("workspace");
                reveal_strlit("members");
            }
            r
        },
        ManifestEdit::RemoveMember { path } => {
            let r = match table_at(root, "workspace") {
                Some(ws) => {
                    let r = drop_member(ws, path.as_str());
                    proof {
                        reveal_strlit("members");
                    }
                    assert(r is Ok ==> table_entries(*ws).contains_key("members"@));
                    r
                },
                None => Err(concat3("Member '", path.as_str(), "' is not in workspace")),
            };
            proof {
                reveal_strlit("workspace");
                reveal_strlit("members");
            }
            r
        },
    }
}

/// Makes an edit on the text of a manifest and gives the text to write back:
/// refused where the text is no TOML document, or where `apply_edit` refuses
/// it on the document that the text holds.
pub fn edit_manifest(content: &str, edit: &ManifestEdit) -> (r: Result<String, ManifestError>)
    ensures
        r matches Err(ManifestError::Parse(_)) <==> parsed_manifest(content@) is None,
        r matches Err(ManifestError::Refused(_)) <==> (parsed_manifest(content@) matches Some(m)
            && refused(m, *edit)),
        r matches Err(ManifestError::Refused(msg)) ==> msg@ == refusal_message(*edit),
        r matches Ok(text) ==> parsed_manifest(text@) == Some(
            edited(parsed_manifest(content@)->0, *edit),
        ),
{
    match parse_document(content) {
        Err(e) => Err(ManifestError::Parse(e)),
        Ok(doc) => {
            let mut doc = doc;
            match apply_edit(&mut doc, edit) {
                Err(msg) => Err(ManifestError::Refused(msg)),
                Ok(()) => Ok(render_document(&doc)),
            }
        },
    }
}

// ───────────────────────────── laws ─────────────────────────────

/// Whether the entry under `key` is missing or a table: one an edit can go
/// into.
pub open spec fn table_or_missing(m: Map<Seq<char>, TomlShape>, key: Seq<char>) -> bool {
    !m.contains_key(key) || m[key] is Table
}

/// A recorded dependency reads back: after `key = "version"` is recorded, the
/// `dependencies` table holds that version under `key`, and every other entry
/// of the manifest is as it was.
pub proof fn law_dependency_reads_back(m: Map<Seq<char>, TomlShape>, key: Seq<char>, version: Seq<char>)
    requires
        table_or_missing(m, "dependencies"@),
    ensures
        with_dependency(m, key, version).get("dependencies"@) matches Some(TomlShape::Table(d)) && d.get(key)
            == Some(TomlShape::Str(version)),
        forall|k: Seq<char>| k != "dependencies"@ ==> #[trigger] with_dependency(m, key, version).get(k) == m.get(k),
{
}

/// Recording the same dependency twice is recording it once.
pub proof fn law_dependency_idempotent(m: Map<Seq<char>, TomlShape>, key: Seq<char>, version: Seq<char>)
    ensures
        with_dependency(with_dependency(m, key, version), key, version) == with_dependency(m, key, version),
{
    let once = with_dependency(m, key, version);
    let twice = with_dependency(once, key, version);
    match with_table(m, "dependencies"@).get("dependencies"@) {
        Some(TomlShape::Table(d)) => {
            let d1 = d.insert(key, TomlShape::Str(version));
            assert(once.get("dependencies"@) == Some(TomlShape::Table(d1)));
            assert(d1.insert(key, TomlShape::Str(version)) =~= d1);
            assert(twice =~= once);
        },
        _ => {
            assert(twice =~= once);
        },
    }
}

/// A recorded workspace dependency reads back from the `dependencies` table of
/// the `workspace` table.
pub proof fn law_workspace_dependency_reads_back(
    m: Map<Seq<char>, TomlShape>,
    key: Seq<char>,
    version: Seq<char>,
)
    requires
        table_or_missing(m, "workspace"@),
        m.get("workspace"@) matches Some(TomlShape::Table(ws)) ==> table_or_missing(ws, "dependencies"@),
    ensures
        with_workspace_dependency(m, key, version).get("workspace"@) matches Some(TomlShape::Table(ws)) && ws.get(
            "dependencies"@,
        ) matches Some(TomlShape::Table(d)) && d.get(key) == Some(TomlShape::Str(version)),
{
    let m1 = with_table(m, "workspace"@);
    let ws = m1["workspace"@]->Table_0;
    law_dependency_reads_back(ws, key, version);
}

/// An added member is listed afterwards, where the workspace table and its
/// `members` array are missing or of their kind; adding it again is then
/// refused.
pub proof fn law_member_listed_after_add(m: Map<Seq<char>, TomlShape>, member: Seq<char>)
    requires
        table_or_missing(m, "workspace"@),
        m.get("workspace"@) matches Some(TomlShape::Table(ws)) ==> (!ws.contains_key("members"@)
            || ws["members"@] is Array),
    ensures
        lists_member(with_member(m, member), member),
{
    let m1 = with_table(m, "workspace"@);
    let ws = m1["workspace"@]->Table_0;
    let ws1 = if ws.contains_key("members"@) {
        ws
    } else {
        ws.insert("members"@, TomlShape::Array(Seq::empty()))
    };
    let items = ws1["members"@]->Array_0;
    if !items.contains(Some(member)) {
        assert(items.push(Some(member)).last() == Some(member));
        assert(items.push(Some(member)).contains(Some(member)));
    }
}

/// Taking out a member just added gives the manifest back: where the workspace
/// table and its `members` array are there and do not list `member`, adding it
/// and then removing it changes nothing.
pub proof fn law_remove_undoes_add(m: Map<Seq<char>, TomlShape>, member: Seq<char>)
    requires
        m.get("workspace"@) matches Some(TomlShape::Table(ws)) && ws.get("members"@) matches Some(
            TomlShape::Array(_),
        ),
        !lists_member(m, member),
    ensures
        without_member(with_member(m, member), member) == m,
{
    let ws = m["workspace"@]->Table_0;
    let items = ws["members"@]->Array_0;
    let pushed = items.push(Some(member));
    assert forall|j: int| 0 <= j < items.len() implies pushed[j] != Some(member) by {
        if pushed[j] == Some(member) {
            assert(items[j] == Some(member));
        }
    }
    lemma_first_member(pushed, member, items.len() as int);
    assert(pushed.remove(items.len() as int) =~= items);
    let ws1 = ws.insert("members"@, TomlShape::Array(pushed));
    assert(ws1.insert("members"@, TomlShape::Array(items)) =~= ws);
    assert(with_table(m, "workspace"@) == m);
    assert(m.insert("workspace"@, TomlShape::Table(ws)) =~= m);
}

/// Adding a member that is not listed appends it to the members (made empty
/// where missing, under a workspace table made where missing), and leaves
/// every other entry of the manifest and of its workspace table as it was.
pub proof fn law_member_appended(m: Map<Seq<char>, TomlShape>, member: Seq<char>)
    requires
        table_or_missing(m, "workspace"@),
        m.get("workspace"@) matches Some(TomlShape::Table(ws)) ==> (!ws.contains_key("members"@)
            || ws["members"@] is Array),
        !lists_member(m, member),
    ensures
        ({
            let old_ws = if m.contains_key("workspace"@) {
                m["workspace"@]->Table_0
            } else {
                Map::empty()
            };
            let old_members = if old_ws.contains_key("members"@) {
                old_ws["members"@]->Array_0
            } else {
                Seq::empty()
            };
            &&& with_member(m, member).get("workspace"@) matches Some(TomlShape::Table(ws))
            &&& ws.get("members"@) == Some(TomlShape::Array(old_members.push(Some(member))))
            &&& forall|k: Seq<char>| k != "members"@ ==> #[trigger] ws.get(k) == old_ws.get(k)
            &&& forall|k: Seq<char>| k != "workspace"@ ==> #[trigger] with_member(m, member).get(k) == m.get(k)
        }),
{
}

} // verus!
