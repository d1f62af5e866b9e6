//! A TOML document edited with `toml_edit`, as `wallust migrate` uses it.
//! Every item here is trusted: the document is seen through its view, the
//! source text it was parsed from and the edits made to it since, and each
//! read names what `toml_edit` answers for that view. Nothing here is proved.
use vstd::prelude::*;

use toml_edit::{value, DocumentMut, Item, TomlError, Value};

verus! {

#[verifier::external_type_specification]
#[verifier::external_body]
pub struct ExDocumentMut(DocumentMut);

#[verifier::external_type_specification]
#[verifier::external_body]
pub struct ExTomlError(TomlError);

/// One change made to a parsed document. Names and keys are the text of the
/// TOML keys; `entry` counts the `[[entry]]` tables from 0.
pub enum TomlEdit {
    /// `doc["templates"][name][key] = doc["entry"][entry][field].clone()`.
    CopyEntryField { entry: int, field: Seq<char>, name: Seq<char>, key: Seq<char> },
    /// `doc["templates"][name][key] = value(b)`.
    SetTemplateBool { name: Seq<char>, key: Seq<char>, b: bool },
    /// `doc["templates"][name][key] = Item::None`, which the document no
    /// longer shows.
    ClearTemplateKey { name: Seq<char>, key: Seq<char> },
    /// `doc.remove("entry")`.
    RemoveEntries,
}

/// A document as this library sees it: the text it was parsed from and the
/// edits made to it since, in order.
pub type TomlView = (Seq<char>, Seq<TomlEdit>);

/// Whether `toml_edit` parses this text as a `DocumentMut`.
pub uninterp spec fn toml_parses(text: Seq<char>) -> bool;

/// The top-level `entry` key: `None` when absent, `Some(None)` when it is not
/// an array of tables, else `Some(Some(n))` with `n` tables.
pub uninterp spec fn toml_entries(doc: TomlView) -> Option<Option<usize>>;

/// Whether the `i`-th table of `[[entry]]` has the key `field`.
pub uninterp spec fn toml_entry_has(doc: TomlView, i: int, field: Seq<char>) -> bool;

/// The shape of the top-level `templates` item: 0 absent, 1 a table, 2 an
/// inline table, 3 anything else.
pub uninterp spec fn toml_templates_kind(doc: TomlView) -> u8;

/// The shape of `templates.<name>`: 0 absent (or `templates` holds no
/// tables), 1 a table, 2 an inline table, 3 any other value.
pub uninterp spec fn toml_template_kind(doc: TomlView, name: Seq<char>) -> u8;

/// The keys of the `[templates]` table, in the document's order.
pub uninterp spec fn toml_template_names(doc: TomlView) -> Seq<Seq<char>>;

/// `templates.<name>.new_engine`: `None` when absent, `Some(None)` when it is
/// not a boolean, else `Some(Some(b))`.
pub uninterp spec fn toml_template_new_engine(doc: TomlView, name: Seq<char>) -> Option<Option<bool>>;

/// Whether the document has the top-level key `key`.
pub uninterp spec fn toml_has_key(doc: TomlView, key: Seq<char>) -> bool;

/// The text that `DocumentMut`'s `Display` writes for the document.
pub uninterp spec fn toml_text(doc: TomlView) -> Seq<char>;

/// A parsed TOML document together with what it came from and what was done
/// to it; the view is that pair.
pub struct TomlDocument {
    doc: DocumentMut,
    source: Ghost<Seq<char>>,
    edits: Ghost<Seq<TomlEdit>>,
}

impl View for TomlDocument {
    type V = TomlView;

    closed spec fn view(&self) -> TomlView {
        (self.source@, self.edits@)
    }
}

/// `text.parse::<DocumentMut>()`.
/// Trusted: it succeeds exactly when `toml_parses` holds of the text, and the
/// document starts with no edits. Nothing is stated of the error.
#[verifier::external_body]
pub(crate) fn parse_document(text: &str) -> (r: Result<TomlDocument, TomlError>)
    ensures
        r is Ok <==> toml_parses(text@),
        r matches Ok(d) ==> d@ == (text@, Seq::<TomlEdit>::empty()),
{
    match text.parse::<DocumentMut>() {
        Ok(doc) => Ok(TomlDocument { doc, source: Ghost(text@), edits: Ghost(Seq::empty()) }),
        Err(e) => Err(e),
    }
}

/// `doc.get("entry")`, then `Item::as_array_of_tables` and its `len`.
/// Trusted: it gives `toml_entries` of the document.
#[verifier::external_body]
pub(crate) fn entry_tables(d: &TomlDocument) -> (r: Option<Option<usize>>)
    ensures
        r == toml_entries(d@),
{
    match d.doc.get("entry") {
        None => None,
        Some(e) => match e.as_array_of_tables() {
            None => Some(None),
            Some(a) => Some(Some(a.len())),
        },
    }
}

/// `Table::get(field)` on the `i`-th table of `[[entry]]` is `Some`.
/// Trusted: it gives `toml_entry_has`.
#[verifier::external_body]
pub(crate) fn entry_has(d: &TomlDocument, i: usize, field: &str) -> (r: bool)
    ensures
        r == toml_entry_has(d@, i as int, field@),
{
    match d.doc.get("entry") {
        None => false,
        Some(e) => match e.as_array_of_tables() {
            None => false,
            Some(a) => match a.get(i) {
                None => false,
                Some(t) => t.get(field).is_some(),
            },
        },
    }
}

/// The variant of `doc.get("templates")`.
/// Trusted: it gives `toml_templates_kind`.
#[verifier::external_body]
pub(crate) fn templates_kind(d: &TomlDocument) -> (r: u8)
    ensures
        r == toml_templates_kind(d@),
{
    match d.doc.get("templates") {
        None => 0,
        Some(Item::Table(_)) => 1,
        Some(Item::Value(Value::InlineTable(_))) => 2,
        Some(_) => 3,
    }
}

/// The variant of `Item::get(name)` on the `templates` item.
/// Trusted: it gives `toml_template_kind`.
#[verifier::external_body]
pub(crate) fn template_kind(d: &TomlDocument, name: &str) -> (r: u8)
    ensures
        r == toml_template_kind(d@, name@),
{
    let t = match d.doc.get("templates") {
        Some(t) => t,
        None => return 0,
    };
    match t.get(name) {
        None => 0,
        Some(Item::Table(_)) => 1,
        Some(Item::Value(Value::InlineTable(_))) => 2,
        Some(_) => 3,
    }
}

/// The keys of the `[templates]` table (`Table::iter`), in order.
/// Trusted: they are `toml_template_names`.
#[verifier::external_body]
pub(crate) fn template_names(d: &TomlDocument) -> (r: Vec<String>)
    ensures
        r@.map_values(|s: String| s@) == toml_template_names(d@),
{
    match d.doc.get("templates") {
        Some(Item::Table(t)) => t.iter().map(|(k, _)| k.to_string()).collect(),
        _ => Vec::new(),
    }
}

/// `Item::get("new_engine")` on `templates.<name>`, then `Item::as_bool`.
/// Trusted: it gives `toml_template_new_engine`.
#[verifier::external_body]
pub(crate) fn template_new_engine(d: &TomlDocument, name: &str) -> (r: Option<Option<bool>>)
    ensures
        r == toml_template_new_engine(d@, name@),
{
    let t = match d.doc.get("templates") {
        Some(t) => t,
        None => return None,
    };
    let v = match t.get(name) {
        Some(v) => v,
        None => return None,
    };
    match v.get("new_engine") {
        None => None,
        Some(x) => Some(x.as_bool()),
    }
}

/// `doc.get(key).is_some()`.
/// Trusted: it gives `toml_has_key`.
#[verifier::external_body]
pub(crate) fn has_key(d: &TomlDocument, key: &str) -> (r: bool)
    ensures
        r == toml_has_key(d@, key@),
{
    d.doc.get(key).is_some()
}

/// `doc["templates"][name][key] = doc["entry"][i][field].clone()`.
/// `toml_edit` panics there unless the entry has the field and both
/// `templates` and `templates.<name>` are absent or tables; `requires` says
/// so. Trusted: the document afterwards is the one before with this edit.
#[verifier::external_body]
pub(crate) fn copy_entry_field(d: &mut TomlDocument, i: usize, field: &str, name: &str, key: &str)
    requires
        toml_entry_has(old(d)@, i as int, field@),
        toml_templates_kind(old(d)@) != 3,
        toml_template_kind(old(d)@, name@) != 3,
    ensures
        final(d)@ == (old(d)@.0, old(d)@.1.push(
            TomlEdit::CopyEntryField { entry: i as int, field: field@, name: name@, key: key@ },
        )),
{
    let item = d.doc["entry"][i][field].clone();
    d.doc["templates"][name][key] = item;
    d.edits = Ghost(d.edits@.push(TomlEdit::CopyEntryField { entry: i as int, field: field@, name: name@, key: key@ }));
}

/// `doc["templates"][name][key] = value(b)`. `toml_edit` panics there unless
/// `templates` and `templates.<name>` are absent or tables.
/// Trusted: the document afterwards is the one before with this edit.
#[verifier::external_body]
pub(crate) fn set_template_bool(d: &mut TomlDocument, name: &str, key: &str, b: bool)
    requires
        toml_templates_kind(old(d)@) != 3,
        toml_template_kind(old(d)@, name@) != 3,
    ensures
        final(d)@ == (old(d)@.0, old(d)@.1.push(TomlEdit::SetTemplateBool { name: name@, key: key@, b })),
{
    d.doc["templates"][name][key] = value(b);
    d.edits = Ghost(d.edits@.push(TomlEdit::SetTemplateBool { name: name@, key: key@, b }));
}

/// `doc["templates"][name][key] = Item::None`. `toml_edit` panics there
/// unless `templates` and `templates.<name>` are absent or tables.
/// Trusted: the document afterwards is the one before with this edit.
#[verifier::external_body]
pub(crate) fn clear_template_key(d: &mut TomlDocument, name: &str, key: &str)
    requires
        toml_templates_kind(old(d)@) != 3,
        toml_template_kind(old(d)@, name@) != 3,
    ensures
        final(d)@ == (old(d)@.0, old(d)@.1.push(TomlEdit::ClearTemplateKey { name: name@, key: key@ })),
{
    d.doc["templates"][name][key] = Item::None;
    d.edits = Ghost(d.edits@.push(TomlEdit::ClearTemplateKey { name: name@, key: key@ }));
}

/// `doc.remove("entry")`.
/// Trusted: the document afterwards is the one before with this edit.
#[verifier::external_body]
pub(crate) fn remove_entries(d: &mut TomlDocument)
    ensures
        final(d)@ == (old(d)@.0, old(d)@.1.push(TomlEdit::RemoveEntries)),
{
    d.doc.remove("entry");
    d.edits = Ghost(d.edits@.push(TomlEdit::RemoveEntries));
}

/// `doc.to_string()`.
/// Trusted: it gives `toml_text` of the document.
#[verifier::external_body]
pub(crate) fn document_text(d: &TomlDocument) -> (r: String)
    ensures
        r@ == toml_text(d@),
{
    d.doc.to_string()
}

} // verus!
