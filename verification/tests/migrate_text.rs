use toml_edit::{value, DocumentMut};
use wallust::migrate::{
    migrate_config, migrated_name, migrated_text, migration_outcome, replace, template_pywal, MigrateError,
    MigrateOutcome, Migration,
};

#[test]
fn replace_follows_std() {
    for (s, from, to) in [
        ("filter = 'dark'", "filter", "palette"),
        ("filterfilter", "filter", "palette"),
        ("aaa", "aa", "b"),
        ("", "x", "y"),
        ("héllo héllo", "é", "e"),
        ("no match", "zz", "y"),
    ] {
        assert_eq!(replace(s, from, to), s.replace(from, to), "{s:?}");
    }
}

#[test]
fn migrated_text_renames_filter() {
    let text = "backend = 'full'\nfilter = 'dark'\n";
    assert_eq!(migrated_text(text, false), "backend = 'full'\npalette = 'dark'\n");
    assert_eq!(migrated_text(text, true), text);
}

#[test]
fn migration_names() {
    assert_eq!(migrated_name(0), "migrated1");
    assert_eq!(migrated_name(9), "migrated10");
}

#[test]
fn pywal_flag() {
    assert!(template_pywal(None));
    assert!(!template_pywal(Some(true)));
    assert!(template_pywal(Some(false)));
}

#[test]
fn outcome() {
    assert_eq!(migration_outcome(false, false, false), MigrateOutcome::Migrate);
    assert_eq!(migration_outcome(true, false, false), MigrateOutcome::FormatOk);
    assert_eq!(migration_outcome(false, true, false), MigrateOutcome::FormatOk);
    assert_eq!(migration_outcome(false, false, true), MigrateOutcome::FormatOk);
}

/// The migration written directly against `toml_edit`, step for step, for
/// the configurations that migrate without error.
fn migrate_directly(text: &str) -> String {
    let mut doc = text.parse::<DocumentMut>().unwrap();
    let entries = doc.get("entry").unwrap().as_array_of_tables().unwrap().clone();
    for (i, e) in entries.into_iter().enumerate() {
        let name = format!("migrated{}", i + 1);
        doc["templates"][name.as_str()]["src"] = e["template"].clone();
        doc["templates"][name.as_str()]["dst"] = e["target"].clone();
        match e.get("new_engine") {
            Some(s) => doc["templates"][name.as_str()]["pywal"] = s.clone(),
            None => doc["templates"][name.as_str()]["pywal"] = value(true),
        }
    }
    let templates = doc.get_mut("templates").unwrap().as_table_mut().unwrap();
    for (_, v) in templates.iter_mut() {
        let new_engine = v.get("new_engine").map(|s| s.as_bool().unwrap());
        v["pywal"] = value(match new_engine {
            Some(b) => !b,
            None => true,
        });
        if new_engine.is_some() {
            v["new_engine"] = toml_edit::Item::None;
        }
    }
    doc.remove("entry");
    doc.to_string().replace("filter", "palette")
}

const V2: &str = r#"backend = "full"
filter = "dark16"

[[entry]]
template = "colors.json"
target = "~/.cache/colors.json"

[[entry]]
template = "kitty.conf"
target = "~/.config/kitty/colors.conf"
new_engine = true

[templates]
zathura = { src = "zathura", dst = "~/.config/zathura/zathurarc", new_engine = true }
"#;

#[test]
fn migrate_config_turns_entries_into_templates() {
    let r = migrate_config(V2);
    let Ok(Migration::Migrated(text)) = r else { panic!("{r:?}") };
    assert_eq!(text, migrate_directly(V2));
    assert!(!text.contains("[[entry]]"));
    assert!(text.contains("palette = \"dark16\""));
    assert!(!text.contains("filter"));
    assert!(!text.contains("new_engine"));
    let doc = text.parse::<toml_edit::DocumentMut>().unwrap();
    assert_eq!(doc["templates"]["migrated1"]["src"].as_str(), Some("colors.json"));
    assert_eq!(doc["templates"]["migrated1"]["dst"].as_str(), Some("~/.cache/colors.json"));
    assert_eq!(doc["templates"]["migrated2"]["src"].as_str(), Some("kitty.conf"));
    assert_eq!(doc["templates"]["migrated1"]["pywal"].as_bool(), Some(true));
    assert_eq!(doc["templates"]["migrated2"]["pywal"].as_bool(), Some(true));
    assert_eq!(doc["templates"]["zathura"]["pywal"].as_bool(), Some(false));
}

#[test]
fn migrate_config_flips_new_engine_of_templates() {
    let v2 = "filter = \"dark\"\n\n[[entry]]\ntemplate = \"a\"\ntarget = \"b\"\n\n[templates]\nx = { src = \"s\", dst = \"d\", new_engine = false }\ny = { src = \"s\", dst = \"d\" }\n";
    let Ok(Migration::Migrated(text)) = migrate_config(v2) else { panic!() };
    assert_eq!(text, migrate_directly(v2));
    let doc = text.parse::<toml_edit::DocumentMut>().unwrap();
    assert_eq!(doc["templates"]["x"]["pywal"].as_bool(), Some(true));
    assert_eq!(doc["templates"]["y"]["pywal"].as_bool(), Some(true));
    assert!(doc["templates"]["x"].get("new_engine").is_none());
    assert_eq!(doc["palette"].as_str(), Some("dark"));
}

#[test]
fn migrate_config_without_entries_is_format_ok() {
    assert_eq!(migrate_config("backend = \"full\"\n"), Ok(Migration::FormatOk));
    let v3 = "palette = \"dark\"\n\n[templates]\nx = { src = \"s\", dst = \"d\" }\n";
    assert_eq!(migrate_config(v3), Ok(Migration::FormatOk));
}

#[test]
fn migrate_config_without_filter_is_format_ok() {
    let v2 = "[[entry]]\ntemplate = \"a\"\ntarget = \"b\"\n\n[templates]\n";
    assert_eq!(migrate_config(v2), Ok(Migration::FormatOk));
}

#[test]
fn migrate_config_entries_need_a_templates_table() {
    let v2 = "filter = \"dark\"\n\n[[entry]]\ntemplate = \"a\"\ntarget = \"b\"\n";
    assert_eq!(migrate_config(v2), Err(MigrateError::TemplatesNotTable));
    assert_eq!(migrate_config("templates = 3\n"), Err(MigrateError::TemplatesNotTable));
}

#[test]
fn migrate_config_refuses_a_bad_entry_key() {
    assert_eq!(migrate_config("entry = 5\n"), Err(MigrateError::EntryNotArrayOfTables));
}

#[test]
fn migrate_config_missing_target() {
    let v2 = "filter = \"dark\"\n\n[[entry]]\ntemplate = \"a\"\n\n[templates]\n";
    assert_eq!(migrate_config(v2), Err(MigrateError::IndexNotFound));
    let v2 = "filter = \"dark\"\ntemplates = 3\n\n[[entry]]\ntemplate = \"a\"\ntarget = \"b\"\n";
    assert_eq!(migrate_config(v2), Err(MigrateError::IndexNotFound));
}

#[test]
fn migrate_config_new_engine_must_be_a_boolean() {
    let v = "[templates]\nx = { src = \"s\", dst = \"d\", new_engine = \"yes\" }\n";
    assert_eq!(migrate_config(v), Err(MigrateError::NewEngineNotBool));
}

#[test]
fn migrate_config_parse_error() {
    assert!(matches!(migrate_config("this is = = not toml"), Err(MigrateError::Parse(_))));
}
