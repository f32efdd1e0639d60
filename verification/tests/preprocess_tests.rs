use my_vm_compiler::preprocess::{next_import, replace_first_str, ImportScan};

fn found(scan: ImportScan) -> (String, String) {
    match scan {
        ImportScan::Found { statement, path } => (statement, path),
        _ => panic!("expected an import statement"),
    }
}

#[test]
fn next_import_finds_first_statement() {
    let src = "int a = 1;\nimport \"lib/math.cvm\";\nimport \"io.cvm\";\n";
    let (statement, path) = found(next_import(src));
    assert_eq!(statement, "import \"lib/math.cvm\";");
    assert_eq!(path, "lib/math.cvm");
}

#[test]
fn next_import_without_imports_is_done() {
    assert!(matches!(next_import("int main() { return 0; }"), ImportScan::Done));
    assert!(matches!(next_import(""), ImportScan::Done));
}

#[test]
fn next_import_unclosed_and_malformed() {
    assert!(matches!(next_import("import \"never closed"), ImportScan::Unclosed));
    assert!(matches!(next_import("x; import \";"), ImportScan::Malformed));
}

#[test]
fn next_import_with_empty_name_and_unicode_text() {
    let (statement, path) = found(next_import("é import \"\"; rest"));
    assert_eq!(statement, "import \"\";");
    assert_eq!(path, "");
    let (_, p2) = found(next_import("// ünïcode\nimport \"ñ.cvm\";"));
    assert_eq!(p2, "ñ.cvm");
}

#[test]
fn replace_first_replaces_only_the_first_occurrence() {
    assert_eq!(replace_first_str("a-b-c", "-", "+"), "a+b-c");
    assert_eq!(replace_first_str("abc", "x", "y"), "abc");
    assert_eq!(replace_first_str("abc", "", "<"), "<abc");
    assert_eq!(replace_first_str("aaa", "aa", "b"), "ba");
    assert_eq!(replace_first_str("", "", "z"), "z");
}

#[test]
fn splicing_an_import_replaces_that_statement() {
    let src = "int a;\nimport \"x.cvm\";\nint b;\nimport \"x.cvm\";";
    let (statement, _) = found(next_import(src));
    let out = replace_first_str(src, &statement, "int x;");
    assert_eq!(out, "int a;\nint x;\nint b;\nimport \"x.cvm\";");
    let (statement2, path2) = found(next_import(&out));
    assert_eq!(path2, "x.cvm");
    assert_eq!(replace_first_str(&out, &statement2, ""), "int a;\nint x;\nint b;\n");
}
