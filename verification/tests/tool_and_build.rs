use aadl2rust::aadlAst2rustCode::generate_build::generate_build_rs;
use aadl2rust::aadlAst2rustCode::tool::dedup_with_min_two_unique;
use aadl2rust::intermediate_ast::{Item, RustModule, Visibility};

fn pair(a: &str, b: &str) -> (String, String) {
    (a.to_string(), b.to_string())
}

fn module(name: &str, docs: Vec<&str>, items: Vec<Item>) -> RustModule {
    RustModule {
        name: name.to_string(),
        docs: docs.into_iter().map(|s| s.to_string()).collect(),
        items,
        attrs: Vec::new(),
        vis: Visibility::Public,
        withs: Vec::new(),
    }
}

#[test]
fn dedup_keeps_repeated_pairs_once_in_first_order() {
    let mut v = vec![
        pair("a", "b"),
        pair("c", "d"),
        pair("a", "b"),
        pair("e", "f"),
        pair("c", "d"),
        pair("a", "b"),
    ];
    let r = dedup_with_min_two_unique(&mut v);
    assert_eq!(r, vec![pair("a", "b"), pair("c", "d")]);
    assert_eq!(v, r);
}

#[test]
fn dedup_drops_pairs_seen_once() {
    let mut v = vec![pair("x", "1"), pair("y", "2")];
    assert!(dedup_with_min_two_unique(&mut v).is_empty());
    assert!(v.is_empty());
}

#[test]
fn dedup_second_pass_is_empty() {
    let mut v = vec![pair("a", "b"), pair("a", "b"), pair("c", "d"), pair("c", "d")];
    let mut once = dedup_with_min_two_unique(&mut v);
    assert_eq!(once, vec![pair("a", "b"), pair("c", "d")]);
    assert!(dedup_with_min_two_unique(&mut once).is_empty());
}

#[test]
fn dedup_pairs_differ_in_second_component() {
    let mut v = vec![pair("a", "b"), pair("a", "c"), pair("a", "c")];
    assert_eq!(dedup_with_min_two_unique(&mut v), vec![pair("a", "c")]);
}

#[test]
fn build_script_without_c_files() {
    let m = module("top", vec![], vec![]);
    assert_eq!(
        generate_build_rs(&m),
        "fn main() {\n    // 没有检测到C源文件，跳过C编译\n}\n"
    );
}

#[test]
fn build_script_with_c_files() {
    let sub = module(
        "sub",
        vec!["// other", "// source_files: foo.c, \"bar.c\", foo.c, 'baz.c',  "],
        vec![],
    );
    let m = module("top", vec![], vec![Item::Mod(Box::new(sub))]);
    let text = generate_build_rs(&m);
    let mut expected = String::from("fn main() {\n");
    for f in ["foo", "bar", "baz"] {
        expected.push_str(&format!("    println!(\"cargo:rerun-if-changed=c_src/{}.c\");\n", f));
        expected.push_str(&format!("    println!(\"cargo:rerun-if-changed=include/{}.h\");\n", f));
    }
    expected.push_str("\n    // 编译C代码\n    cc::Build::new()\n");
    for f in ["foo", "bar", "baz"] {
        expected.push_str(&format!("        .file(\"c_src/{}.c\")\n", f));
    }
    expected.push_str("        .include(\"include\")\n        .flag_if_supported(\"/std:c11\")\n        .flag_if_supported(\"/TC\")\n        .compile(\"c_lib\");\n\n    // 生成Rust绑定\n    bindgen::Builder::default()\n");
    for f in ["foo", "bar", "baz"] {
        expected.push_str(&format!("        .header(\"include/{}.h\")\n", f));
    }
    expected.push_str("        .parse_callbacks(Box::new(bindgen::CargoCallbacks))\n        .generate()\n        .expect(\"生成绑定失败\")\n        .write_to_file(\n            std::path::Path::new(&std::env::var(\"OUT_DIR\").unwrap())\n                .join(\"aadl_c_bindings.rs\")\n        )\n        .expect(\"写入绑定文件失败\");\n}\n");
    assert_eq!(text, expected);
}

#[test]
fn build_script_ignores_top_level_docs() {
    let m = module("top", vec!["// source_files: a.c"], vec![]);
    assert!(generate_build_rs(&m).contains("跳过C编译"));
}

#[test]
fn repeated_names_are_kept_once() {
    let mut v: Vec<String> = ["a", "b", "a", "c", "b", "a"].iter().map(|s| s.to_string()).collect();
    let kept = aadl2rust::aadlAst2rustCode::tool::dedup_with_min_two_unique_single_string(&mut v);
    assert_eq!(kept, vec!["a".to_string(), "b".to_string()]);
    assert_eq!(v, kept);
    let mut single: Vec<String> = vec!["x".to_string()];
    assert!(aadl2rust::aadlAst2rustCode::tool::dedup_with_min_two_unique_single_string(&mut single).is_empty());
}
