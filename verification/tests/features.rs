use test_cdylib::features::retain_declared;
use test_cdylib::table::Table;

fn list(words: &[&str]) -> Vec<String> {
    words.iter().map(|w| w.to_string()).collect()
}

fn declared(names: &[&str]) -> Table<Vec<String>> {
    let mut table = Table::new();
    for name in names {
        table.insert(name.to_string(), vec![format!("demo/{}", name)]);
    }
    table
}

#[test]
fn retain_declared_keeps_order() {
    let mut enabled = list(&["zeta", "unknown", "alpha", "other", "mid"]);
    retain_declared(&mut enabled, &declared(&["alpha", "mid", "zeta"]));
    assert_eq!(enabled, list(&["zeta", "alpha", "mid"]));
}

#[test]
fn retain_declared_twice_is_once() {
    let table = declared(&["a", "c"]);
    let mut once = list(&["a", "b", "c", "d", "a"]);
    retain_declared(&mut once, &table);
    let mut twice = once.clone();
    retain_declared(&mut twice, &table);
    assert_eq!(once, list(&["a", "c", "a"]));
    assert_eq!(twice, once);
}

#[test]
fn retain_declared_nothing_declared() {
    let mut enabled = list(&["a", "b"]);
    retain_declared(&mut enabled, &declared(&[]));
    assert_eq!(enabled, Vec::<String>::new());
}

#[test]
fn retain_declared_nothing_enabled() {
    let mut enabled: Vec<String> = vec![];
    retain_declared(&mut enabled, &declared(&["a"]));
    assert_eq!(enabled, Vec::<String>::new());
}

#[test]
fn retain_declared_all_declared() {
    let mut enabled = list(&["b", "a"]);
    retain_declared(&mut enabled, &declared(&["a", "b", "c"]));
    assert_eq!(enabled, list(&["b", "a"]));
}

#[test]
fn hash_suffix_of_test_binary() {
    assert_eq!(
        test_cdylib::features::hash_suffix("/w/target/debug/deps/load_lib-0123456789abcdef"),
        Some("-0123456789abcdef".to_string())
    );
    assert_eq!(
        test_cdylib::features::hash_suffix("-ffffffffffffffff"),
        Some("-ffffffffffffffff".to_string())
    );
}

#[test]
fn hash_suffix_missing() {
    assert_eq!(test_cdylib::features::hash_suffix(""), None);
    assert_eq!(test_cdylib::features::hash_suffix("load_lib"), None);
    assert_eq!(test_cdylib::features::hash_suffix("0123456789abcdef"), None);
    assert_eq!(test_cdylib::features::hash_suffix("/deps/load_lib-0123456789ABCDEF"), None);
    assert_eq!(test_cdylib::features::hash_suffix("/deps/load_lib-0123456789abcdeg"), None);
    assert_eq!(test_cdylib::features::hash_suffix("/deps/load_lib_0123456789abcdef"), None);
    assert_eq!(test_cdylib::features::hash_suffix("/deps/load_lib-123456789abcdef"), None);
    assert_eq!(test_cdylib::features::hash_suffix("/deps/load_lib-0123456789abcdef.exe"), None);
}
