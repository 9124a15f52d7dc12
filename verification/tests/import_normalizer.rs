use file_info::decoder::{ImportRaw, SymbolRaw};
use file_info::pe::imports::{pimp, Imports};

fn named(dll: &str, name: &str) -> ImportRaw {
    ImportRaw { dll: dll.to_string(), name: name.to_string(), ordinal: 0 }
}

fn by_ordinal(dll: &str, ordinal: u16) -> ImportRaw {
    ImportRaw { dll: dll.to_string(), name: String::new(), ordinal }
}

#[test]
fn named_and_ordinal_import_share_one_module_entry() {
    let records = vec![named("KERNEL32.dll", "CreateFileW"), by_ordinal("KERNEL32.dll", 7)];
    let im = Imports::parse(&records);
    assert_eq!(im.modules.len(), 1);
    let entry = &im.modules[0];
    assert_eq!(entry.name, "kernel32.dll");
    assert_eq!(entry.imports.len(), 2);
    assert_eq!(entry.imports[0].name, "CreateFileW");
    assert!(!entry.imports[0].import_by_ordinal);
    assert_eq!(entry.imports[1].name, "Ordinal(7)");
    assert!(entry.imports[1].import_by_ordinal);
}

#[test]
fn module_names_compare_case_insensitively() {
    let records = vec![named("User32.DLL", "MessageBoxW"), named("user32.dll", "GetDC")];
    let im = Imports::parse(&records);
    assert_eq!(im.modules.len(), 1);
    assert_eq!(im.modules[0].name, "user32.dll");
    assert_eq!(im.modules[0].imports.len(), 2);
}

#[test]
fn modules_keep_first_appearance_order() {
    let records = vec![
        named("b.dll", "f1"),
        named("a.dll", "g1"),
        named("B.DLL", "f2"),
        named("c.dll", "h1"),
    ];
    let im = Imports::parse(&records);
    let names: Vec<&str> = im.modules.iter().map(|m| m.name.as_str()).collect();
    assert_eq!(names, vec!["b.dll", "a.dll", "c.dll"]);
    assert_eq!(im.modules[0].imports.len(), 2);
    assert_eq!(im.modules[0].imports[1].name, "f2");
}

#[test]
fn duplicate_functions_are_kept() {
    let records = vec![named("x.dll", "f"), named("x.dll", "f")];
    let im = Imports::parse(&records);
    assert_eq!(im.modules.len(), 1);
    assert_eq!(im.modules[0].imports.len(), 2);
}

#[test]
fn empty_directory_yields_no_modules() {
    let im = Imports::parse(&vec![]);
    assert_eq!(im.modules.len(), 0);
}

#[test]
fn pimp_wraps_the_same_normalization() {
    let records = vec![by_ordinal("a.dll", 3)];
    let im = pimp(&records).unwrap();
    assert_eq!(im.modules[0].imports[0].name, "Ordinal(3)");
}

fn sym(name: &str, is_import: bool, is_function: bool) -> SymbolRaw {
    SymbolRaw { name: Some(name.to_string()), is_import, is_function }
}

#[test]
fn elf_versioned_symbol_splits_into_function_and_module() {
    let syms = vec![sym("printf@@GLIBC_2.2.5", true, true)];
    let im = Imports::from_elf_symbols(&syms);
    assert_eq!(im.modules.len(), 1);
    assert_eq!(im.modules[0].name, "GLIBC_2.2.5");
    assert_eq!(im.modules[0].imports.len(), 1);
    assert_eq!(im.modules[0].imports[0].name, "printf");
    assert!(!im.modules[0].imports[0].import_by_ordinal);
}

#[test]
fn elf_symbols_without_delimiter_or_flags_are_dropped() {
    let syms = vec![
        sym("local_helper", false, true),
        sym("imported_object@@GLIBC_2.2.5", true, false),
        sym("no_version_name", true, true),
        SymbolRaw { name: None, is_import: true, is_function: true },
    ];
    let im = Imports::from_elf_symbols(&syms);
    assert_eq!(im.modules.len(), 0);
}

#[test]
fn elf_modules_group_by_exporting_module() {
    let syms = vec![
        sym("printf@@GLIBC_2.2.5", true, true),
        sym("malloc@@GLIBC_2.2.5", true, true),
        sym("pthread_create@@GLIBC_2.34", true, true),
    ];
    let im = Imports::from_elf_symbols(&syms);
    assert_eq!(im.modules.len(), 2);
    assert_eq!(im.modules[0].name, "GLIBC_2.2.5");
    assert_eq!(im.modules[0].imports.len(), 2);
    assert_eq!(im.modules[1].name, "GLIBC_2.34");
}
