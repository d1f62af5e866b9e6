//! `wallust migrate`: moving a v2 configuration to the v3 format. Each old
//! `[[entry]]` table becomes a template `migrated<n>` under `[templates]`,
//! each template's `new_engine` flag becomes its negation under `pywal`, the
//! `entry` key goes, and `filter` is renamed `palette`. The TOML document is
//! parsed and edited with `toml_edit` (see `toml_doc`).
use vstd::prelude::*;

use crate::text::{decimal, decimal_spec, push_char};
use crate::toml_doc::{
    clear_template_key, copy_entry_field, document_text, entry_has, entry_tables, has_key,
    parse_document, remove_entries, set_template_bool, template_kind, template_names,
    template_new_engine, templates_kind, toml_entries, toml_entry_has, toml_has_key,
    toml_parses, toml_template_kind, toml_template_names, toml_template_new_engine,
    toml_templates_kind, toml_text, TomlDocument, TomlEdit, TomlView,
};

verus! {

/// `str::replace` for a non-empty pattern: the leftmost occurrences of
/// `from`, taken one after the other without overlapping, become `to`.
pub open spec fn replace_spec(s: Seq<char>, from: Seq<char>, to: Seq<char>) -> Seq<char>
    recommends
        from.len() > 0,
    decreases s.len(),
{
    if s.len() == 0 || from.len() == 0 {
        s
    } else if from.len() <= s.len() && s.take(from.len() as int) == from {
        to + replace_spec(s.skip(from.len() as int), from, to)
    } else {
        seq![s[0]] + replace_spec(s.skip(1), from, to)
    }
}

/// Whether `pat` occurs in `s` at character position `i`.
fn occurs_at(s: &str, n: usize, i: usize, pat: &str) -> (r: bool)
    requires
        n == s@.len(),
        i <= n,
    ensures
        r == (i + pat@.len() <= n && s@.subrange(i as int, i + pat@.len()) == pat@),
{
    let m = pat.unicode_len();
    if m > n - i {
        return false;
    }
    let mut k: usize = 0;
    while k < m
        invariant
            m == pat@.len(),
            i + m <= n,
            n == s@.len(),
            k <= m,
            s@.subrange(i as int, i + k) =~= pat@.take(k as int),
        decreases m - k,
    {
        if s.get_char(i + k) != pat.get_char(k) {
            assert(s@.subrange(i as int, i + m)[k as int] != pat@[k as int]);
            return false;
        }
        k += 1;
        assert(s@.subrange(i as int, i + k) =~= pat@.take(k as int));
    }
    assert(pat@.take(m as int) =~= pat@);
    true
}

/// `text.replace(from, to)` for a non-empty `from`.
pub fn replace(text: &str, from: &str, to: &str) -> (r: String)
    requires
        from@.len() > 0,
    ensures
        r@ == replace_spec(text@, from@, to@),
{
    let n = text.unicode_len();
    let m = from.unicode_len();
    let mut out = String::new();
    let mut i: usize = 0;
    assert(text@.skip(0) =~= text@);
    while i < n
        invariant
            n == text@.len(),
            m == from@.len(),
            m > 0,
            i <= n,
            replace_spec(text@, from@, to@) == out@ + replace_spec(text@.skip(i as int), from@, to@),
        decreases n - i,
    {
        let ghost rest = text@.skip(i as int);
        if occurs_at(text, n, i, from) {
            assert(rest.take(m as int) =~= text@.subrange(i as int, i + m));
            assert(rest.skip(m as int) =~= text@.skip(i + m));
            out.append(to);
            i += m;
        } else {
            assert(m <= rest.len() ==> rest.take(m as int) =~= text@.subrange(i as int, i + m));
            assert(rest.skip(1) =~= text@.skip(i + 1));
            assert(rest[0] == text@[i as int]);
            push_char(&mut out, text.get_char(i));
            i += 1;
        }
    }
    assert(text@.skip(i as int) =~= Seq::<char>::empty());
    out
}

/// The name of the `i`-th (from 0) old `[[entry]]` as a template.
pub open spec fn migrated_name_spec(i: int) -> Seq<char> {
    "migrated"@ + decimal_spec((i + 1) as nat)
}

/// The name of the `i`-th (from 0) old `[[entry]]` once it becomes a named
/// template: `migrated1`, `migrated2`, ...
pub fn migrated_name(i: usize) -> (s: String)
    requires
        i < usize::MAX,
    ensures
        s@ == migrated_name_spec(i as int),
{
    let mut s = String::from_str("migrated");
    s.append(decimal(i as u64 + 1).as_str());
    s
}

/// The `pywal` flag that replaces a template's `new_engine` flag: its
/// negation, and `true` when there was none.
pub open spec fn pywal_for(new_engine: Option<bool>) -> bool {
    match new_engine {
        Some(b) => !b,
        None => true,
    }
}

/// The `pywal` flag that replaces a template's `new_engine` flag.
pub fn template_pywal(new_engine: Option<bool>) -> (pywal: bool)
    ensures
        pywal == pywal_for(new_engine),
{
    match new_engine {
        Some(b) => !b,
        None => true,
    }
}

/// What `migrate` ends with.
#[derive(Debug, Clone, Copy, PartialEq, Eq, Structural)]
pub enum MigrateOutcome {
    /// Nothing to do: "Config format Ok".
    FormatOk,
    /// Keep the old file aside and write the new one.
    Migrate,
}

/// A configuration is migrated only when it has old entries, a `filter`
/// key and templates; otherwise its format is fine as it is.
pub fn migration_outcome(entry_is_empty: bool, filter_is_empty: bool, template_is_empty: bool) -> (r: MigrateOutcome)
    ensures
        r == (if entry_is_empty || filter_is_empty || template_is_empty {
            MigrateOutcome::FormatOk
        } else {
            MigrateOutcome::Migrate
        }),
{
    if (entry_is_empty || filter_is_empty) || template_is_empty {
        MigrateOutcome::FormatOk
    } else {
        MigrateOutcome::Migrate
    }
}

/// The migrated file's text: every `filter` becomes `palette` when the file
/// had a `filter` key.
pub fn migrated_text(text: &str, filter_is_empty: bool) -> (r: String)
    ensures
        r@ == (if filter_is_empty { text@ } else { replace_spec(text@, "filter"@, "palette"@) }),
{
    if !filter_is_empty {
        proof {
            reveal_strlit("filter");
        }
        replace(text, "filter", "palette")
    } else {
        String::from_str(text)
    }
}

/// Why a configuration could not be migrated.
#[derive(Debug, PartialEq, Eq)]
pub enum MigrateError {
    /// The file is not TOML; the parser's error.
    Parse(toml_edit::TomlError),
    /// "Error, entry is not an array of tables."
    EntryNotArrayOfTables,
    /// "Error, `[templates]` is wrongly formatted, please refer to the man page."
    TemplatesNotTable,
    /// A key that the migration reads or writes through is missing, or is not
    /// a table ("index not found").
    IndexNotFound,
    /// A template's `new_engine` is not a boolean.
    NewEngineNotBool,
}

/// What `migrate` does with a configuration that it could read.
#[derive(Debug, Clone, PartialEq, Eq)]
pub enum Migration {
    /// Nothing to do: "Config format Ok".
    FormatOk,
    /// The old file is kept aside and this text is written in its place.
    Migrated(String),
}

/// Whether `templates.<name>.<key>` can be written: `templates` and
/// `templates.<name>` are absent or tables.
pub open spec fn template_writable(d: TomlView, name: Seq<char>) -> bool {
    toml_templates_kind(d) != 3 && toml_template_kind(d, name) != 3
}

/// `templates.<name>.<key>` takes field `field` of the `i`-th entry, when the
/// entry has it and the template can be written.
pub open spec fn copy_step(src: Seq<char>, before: Seq<TomlEdit>, i: int, field: Seq<char>, name: Seq<char>, key: Seq<char>) -> Result<Seq<TomlEdit>, MigrateError> {
    if toml_entry_has((src, before), i, field) && template_writable((src, before), name) {
        Ok(before.push(TomlEdit::CopyEntryField { entry: i, field, name, key }))
    } else {
        Err(MigrateError::IndexNotFound)
    }
}

/// The `i`-th `[[entry]]` becomes `templates.migrated<i + 1>`: its `template`
/// as `src`, its `target` as `dst`, and its `new_engine` as `pywal` (`true`
/// when it has none).
pub open spec fn entry_step(src: Seq<char>, before: Seq<TomlEdit>, i: int) -> Result<Seq<TomlEdit>, MigrateError> {
    let name = migrated_name_spec(i);
    match copy_step(src, before, i, "template"@, name, "src"@) {
        Err(e) => Err(e),
        Ok(e1) => match copy_step(src, e1, i, "target"@, name, "dst"@) {
            Err(e) => Err(e),
            Ok(e2) => if toml_entry_has((src, e2), i, "new_engine"@) {
                copy_step(src, e2, i, "new_engine"@, name, "pywal"@)
            } else if template_writable((src, e2), name) {
                Ok(e2.push(TomlEdit::SetTemplateBool { name, key: "pywal"@, b: true }))
            } else {
                Err(MigrateError::IndexNotFound)
            },
        },
    }
}

/// The edits that turn the first `n` `[[entry]]` tables into templates, in
/// order, or the first failure.
pub open spec fn entry_edits(src: Seq<char>, n: nat) -> Result<Seq<TomlEdit>, MigrateError>
    decreases n,
{
    if n == 0 {
        Ok(Seq::empty())
    } else {
        match entry_edits(src, (n - 1) as nat) {
            Err(e) => Err(e),
            Ok(before) => entry_step(src, before, n - 1),
        }
    }
}

/// Template `name` gets `pywal = pywal_for(new_engine)`, and its
/// `new_engine` goes when it had one.
pub open spec fn template_step(src: Seq<char>, before: Seq<TomlEdit>, name: Seq<char>) -> Result<Seq<TomlEdit>, MigrateError> {
    let d = (src, before);
    match toml_template_new_engine(d, name) {
        Some(None) => Err(MigrateError::NewEngineNotBool),
        ne => {
            let flag = match ne {
                Some(Some(b)) => Some(b),
                _ => None,
            };
            if !template_writable(d, name) {
                Err(MigrateError::IndexNotFound)
            } else {
                let e1 = before.push(TomlEdit::SetTemplateBool { name, key: "pywal"@, b: pywal_for(flag) });
                if flag is None {
                    Ok(e1)
                } else if template_writable((src, e1), name) {
                    Ok(e1.push(TomlEdit::ClearTemplateKey { name, key: "new_engine"@ }))
                } else {
                    Err(MigrateError::IndexNotFound)
                }
            }
        },
    }
}

/// The edits made to the first `k` of `names`, after `start`.
pub open spec fn template_edits(src: Seq<char>, names: Seq<Seq<char>>, start: Seq<TomlEdit>, k: nat) -> Result<Seq<TomlEdit>, MigrateError>
    decreases k,
{
    if k == 0 {
        Ok(start)
    } else {
        match template_edits(src, names, start, (k - 1) as nat) {
            Err(e) => Err(e),
            Ok(before) => template_step(src, before, names[k - 1]),
        }
    }
}

/// What migrating the configuration text `src`, which parses, gives: an
/// error, `None` when its format is fine, or the new text.
pub open spec fn migration(src: Seq<char>) -> Result<Option<Seq<char>>, MigrateError> {
    let entries = toml_entries((src, Seq::empty()));
    let n: nat = match entries {
        Some(Some(n)) => n as nat,
        _ => 0,
    };
    if entries == Some(None::<usize>) {
        Err(MigrateError::EntryNotArrayOfTables)
    } else {
        match entry_edits(src, n) {
            Err(e) => Err(e),
            Ok(e1) => {
                let kind = toml_templates_kind((src, e1));
                let names = toml_template_names((src, e1));
                if kind != 0 && kind != 1 {
                    Err(MigrateError::TemplatesNotTable)
                } else {
                    let done = if kind == 0 { Ok(e1) } else { template_edits(src, names, e1, names.len()) };
                    match done {
                        Err(e) => Err(e),
                        Ok(e2) => {
                            let filter_is_empty = !toml_has_key((src, e2), "filter"@);
                            if entries is None || filter_is_empty || kind == 0 {
                                Ok(None)
                            } else {
                                Ok(Some(replace_spec(toml_text((src, e2.push(TomlEdit::RemoveEntries))), "filter"@, "palette"@)))
                            }
                        },
                    }
                }
            },
        }
    }
}

proof fn lemma_entry_edits_err(src: Seq<char>, i: nat, n: nat)
    requires
        i <= n,
        entry_edits(src, i) is Err,
    ensures
        entry_edits(src, n) == entry_edits(src, i),
    decreases n - i,
{
    if i < n {
        lemma_entry_edits_err(src, i, (n - 1) as nat);
    }
}

proof fn lemma_template_edits_err(src: Seq<char>, names: Seq<Seq<char>>, start: Seq<TomlEdit>, k: nat, n: nat)
    requires
        k <= n,
        template_edits(src, names, start, k) is Err,
    ensures
        template_edits(src, names, start, n) == template_edits(src, names, start, k),
    decreases n - k,
{
    if k < n {
        lemma_template_edits_err(src, names, start, k, (n - 1) as nat);
    }
}

fn can_write(d: &TomlDocument, name: &str) -> (r: bool)
    ensures
        r == template_writable(d@, name@),
{
    templates_kind(d) != 3 && template_kind(d, name) != 3
}

/// `wallust migrate` on the text of a configuration file: the v3 text to
/// write in its place, `FormatOk` when there is nothing to migrate, or why it
/// cannot be migrated.
pub fn migrate_config(text: &str) -> (r: Result<Migration, MigrateError>)
    ensures
        (r matches Err(MigrateError::Parse(_))) <==> !toml_parses(text@),
        toml_parses(text@) ==> match migration(text@) {
            Err(e) => r == Err::<Migration, MigrateError>(e),
            Ok(None) => r == Ok::<Migration, MigrateError>(Migration::FormatOk),
            Ok(Some(s)) => r matches Ok(Migration::Migrated(t)) && t@ == s,
        },
{
    let mut doc = match parse_document(text) {
        Ok(d) => d,
        Err(m) => return Err(MigrateError::Parse(m)),
    };
    let entries = entry_tables(&doc);
    let n: usize = match entries {
        Some(None) => return Err(MigrateError::EntryNotArrayOfTables),
        Some(Some(n)) => n,
        None => 0,
    };
    let ghost src = text@;
    let mut i: usize = 0;
    while i < n
        invariant
            i <= n,
            toml_parses(src),
            src == text@,
            entries == toml_entries((src, Seq::empty())),
            entries != Some(None::<usize>),
            n == (match entries {
                Some(Some(n)) => n,
                _ => 0,
            }),
            doc@.0 == src,
            entry_edits(src, i as nat) == Ok::<Seq<TomlEdit>, MigrateError>(doc@.1),
        decreases n - i,
    {
        let name = migrated_name(i);
        if !(entry_has(&doc, i, "template") && can_write(&doc, name.as_str())) {
            proof {
                lemma_entry_edits_err(src, (i + 1) as nat, n as nat);
            }
            return Err(MigrateError::IndexNotFound);
        }
        copy_entry_field(&mut doc, i, "template", name.as_str(), "src");
        if !(entry_has(&doc, i, "target") && can_write(&doc, name.as_str())) {
            proof {
                lemma_entry_edits_err(src, (i + 1) as nat, n as nat);
            }
            return Err(MigrateError::IndexNotFound);
        }
        copy_entry_field(&mut doc, i, "target", name.as_str(), "dst");
        if entry_has(&doc, i, "new_engine") {
            if !can_write(&doc, name.as_str()) {
                proof {
                    lemma_entry_edits_err(src, (i + 1) as nat, n as nat);
                }
                return Err(MigrateError::IndexNotFound);
            }
            copy_entry_field(&mut doc, i, "new_engine", name.as_str(), "pywal");
        } else {
            if !can_write(&doc, name.as_str()) {
                proof {
                    lemma_entry_edits_err(src, (i + 1) as nat, n as nat);
                }
                return Err(MigrateError::IndexNotFound);
            }
            set_template_bool(&mut doc, name.as_str(), "pywal", true);
        }
        i += 1;
    }
    let ghost e1 = doc@.1;
    let kind = templates_kind(&doc);
    if kind != 0 && kind != 1 {
        return Err(MigrateError::TemplatesNotTable);
    }
    if kind == 1 {
        let names = template_names(&doc);
        let ghost spec_names = toml_template_names((src, e1));
        let mut k: usize = 0;
        while k < names.len()
            invariant
                k <= names.len(),
                toml_parses(src),
                src == text@,
                doc@.0 == src,
                names@.map_values(|s: String| s@) == spec_names,
                names@.len() == spec_names.len(),
                entries == toml_entries((src, Seq::empty())),
                entries != Some(None::<usize>),
                n == (match entries {
                    Some(Some(n)) => n,
                    _ => 0,
                }),
                entry_edits(src, n as nat) == Ok::<Seq<TomlEdit>, MigrateError>(e1),
                kind == toml_templates_kind((src, e1)),
                kind == 1,
                spec_names == toml_template_names((src, e1)),
                template_edits(src, spec_names, e1, k as nat) == Ok::<Seq<TomlEdit>, MigrateError>(doc@.1),
            decreases names.len() - k,
        {
            let name = names[k].as_str();
            let ne = template_new_engine(&doc, name);
            let flag = match ne {
                Some(None) => {
                    proof {
                        lemma_template_edits_err(src, spec_names, e1, (k + 1) as nat, spec_names.len());
                    }
                    return Err(MigrateError::NewEngineNotBool);
                },
                Some(Some(b)) => Some(b),
                None => None,
            };
            if !can_write(&doc, name) {
                proof {
                    lemma_template_edits_err(src, spec_names, e1, (k + 1) as nat, spec_names.len());
                }
                return Err(MigrateError::IndexNotFound);
            }
            set_template_bool(&mut doc, name, "pywal", template_pywal(flag));
            if flag.is_some() {
                if !can_write(&doc, name) {
                    proof {
                        lemma_template_edits_err(src, spec_names, e1, (k + 1) as nat, spec_names.len());
                    }
                    return Err(MigrateError::IndexNotFound);
                }
                clear_template_key(&mut doc, name, "new_engine");
            }
            k += 1;
        }
    }
    let filter_is_empty = !has_key(&doc, "filter");
    match migration_outcome(entries.is_none(), filter_is_empty, kind == 0) {
        MigrateOutcome::FormatOk => Ok(Migration::FormatOk),
        MigrateOutcome::Migrate => {
            remove_entries(&mut doc);
            let t = document_text(&doc);
            Ok(Migration::Migrated(migrated_text(t.as_str(), filter_is_empty)))
        },
    }
}

} // verus!
