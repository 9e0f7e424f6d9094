use blast::hot_reload::import::{imported_packages, ImportStatement};

#[test]
fn test_parse_simple_import() {
    let imports = ImportStatement::parse_from_line("import numpy");
    assert_eq!(imports.len(), 1);
    assert_eq!(imports[0].module, "numpy");
    assert!(!imports[0].is_from);
}

#[test]
fn test_parse_multiple_imports() {
    let imports = ImportStatement::parse_from_line("import numpy, pandas, tensorflow");
    assert_eq!(imports.len(), 3);
    assert_eq!(imports[0].module, "numpy");
    assert_eq!(imports[1].module, "pandas");
    assert_eq!(imports[2].module, "tensorflow");
}

#[test]
fn test_parse_from_import() {
    let imports = ImportStatement::parse_from_line("from numpy import array, zeros");
    assert_eq!(imports.len(), 1);
    assert_eq!(imports[0].module, "array");
    assert!(imports[0].is_from);
    assert_eq!(imports[0].names, vec!["array", "zeros"]);
    assert_eq!(imports[0].from_path, Some("numpy".to_string()));
}

#[test]
fn test_parse_import_with_alias() {
    let imports = ImportStatement::parse_from_line("import numpy as np");
    assert_eq!(imports.len(), 1);
    assert_eq!(imports[0].module, "numpy");
}

#[test]
fn test_parse_nested_import() {
    let imports = ImportStatement::parse_from_line("from tensorflow.keras import layers");
    assert_eq!(imports.len(), 1);
    assert_eq!(imports[0].get_package_name(), "tensorflow");
}

#[test]
fn comment_and_blank_lines_import_nothing() {
    assert!(ImportStatement::parse_from_line("# import os").is_empty());
    assert!(ImportStatement::parse_from_line("   ").is_empty());
    assert!(ImportStatement::parse_from_line("").is_empty());
}

#[test]
fn open_parenthesis_defers_to_caller() {
    assert!(ImportStatement::parse_from_line("from os import (path,").is_empty());
}

#[test]
fn closed_parenthesis_is_kept_in_names() {
    let imports = ImportStatement::parse_from_line("from os import (path)");
    assert_eq!(imports.len(), 1);
    assert_eq!(imports[0].names, vec!["(path)"]);
}

#[test]
fn lines_without_import_keyword_import_nothing() {
    assert!(ImportStatement::parse_from_line("print('import x')").is_empty());
    assert!(ImportStatement::parse_from_line("importlib.reload(x)").is_empty());
    assert!(ImportStatement::parse_from_line("from x").is_empty());
    assert!(ImportStatement::parse_from_line("from x importy").is_empty());
}

#[test]
fn surrounding_whitespace_is_ignored() {
    let imports = ImportStatement::parse_from_line("   import   os.path  ");
    assert_eq!(imports.len(), 1);
    assert_eq!(imports[0].module, "os.path");
    assert_eq!(imports[0].get_package_name(), "os");
}

#[test]
fn blank_pieces_are_skipped() {
    let imports = ImportStatement::parse_from_line("import a, , b");
    assert_eq!(imports.len(), 2);
    assert_eq!(imports[0].module, "a");
    assert_eq!(imports[1].module, "b");
    let from = ImportStatement::parse_from_line("from p import x, , y");
    assert_eq!(from[0].names, vec!["x", "y"]);
}

#[test]
fn relative_from_import_package_is_empty_segment() {
    let imports = ImportStatement::parse_from_line("from .local import helper");
    assert_eq!(imports.len(), 1);
    assert_eq!(imports[0].from_path, Some(".local".to_string()));
    assert_eq!(imports[0].get_package_name(), "");
}

#[test]
fn unicode_module_paths_are_words() {
    let imports = ImportStatement::parse_from_line("from módulo import x");
    assert_eq!(imports.len(), 1);
    assert_eq!(imports[0].get_package_name(), "módulo");
}

#[test]
fn package_name_of_constructed_statements() {
    let plain = ImportStatement::new("a.b.c".to_string());
    assert_eq!(plain.get_package_name(), "a");
    let from = ImportStatement::with_names("x".to_string(), vec!["x".to_string()], "pkg.sub".to_string());
    assert_eq!(from.get_package_name(), "pkg");
}

#[test]
fn from_captures_and_module_lists() {
    let s = ImportStatement::from_captures("numpy", "array, zeros");
    assert_eq!(s.len(), 1);
    assert_eq!(s[0].names, vec!["array", "zeros"]);
    assert!(ImportStatement::from_captures("numpy", " , ").is_empty());
    let m = ImportStatement::from_module_list("os as o, sys");
    assert_eq!(m.len(), 2);
    assert_eq!(m[0].module, "os");
    assert_eq!(m[1].module, "sys");
}

#[test]
fn file_analysis_collects_distinct_packages() {
    let source = "import os\nimport numpy as np\nfrom numpy.linalg import norm\n# import hidden\nfrom x import (a,\n  b)\nimport sys, os\n";
    let found = imported_packages(source);
    assert_eq!(found, vec!["os", "numpy", "sys"]);
}

#[test]
fn file_analysis_reads_closing_line_only() {
    let source = "from a import (\nb,\nc)\nimport z\n";
    let found = imported_packages(source);
    assert_eq!(found, vec!["z"]);
}
