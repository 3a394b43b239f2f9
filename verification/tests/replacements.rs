use bevy_materialize::load::replacements::{apply_replacements, file_stem_of, replace_all};
use bevy_materialize::load::GenericMaterialLoader;

#[test]
fn name_placeholder_becomes_the_file_name_without_extension() {
    let loader = GenericMaterialLoader::new();
    let text = b"base = \"${name}_base.png\"".to_vec();
    let replaced = loader.try_apply_replacements("materials/example.material.toml", text);
    assert_eq!(replaced, b"base = \"example_base.png\"".to_vec());
}

#[test]
fn every_placeholder_is_replaced() {
    let text = b"${name}${name} and $${name} {name} ${name".to_vec();
    assert_eq!(
        apply_replacements("stone.toml", text),
        b"stonestone and $stone {name} ${name".to_vec()
    );
}

#[test]
fn text_without_placeholder_is_unchanged() {
    let text = "unlit = true # \u{e9}t\u{e9}".as_bytes().to_vec();
    assert_eq!(apply_replacements("a/b.toml", text.clone()), text);
    assert_eq!(apply_replacements("a/b.toml", Vec::new()), Vec::<u8>::new());
}

#[test]
fn text_that_is_not_utf8_is_unchanged() {
    let mut text = b"x = \"${name}\"".to_vec();
    text.push(0xff);
    assert_eq!(apply_replacements("materials/stone.toml", text.clone()), text);
}

#[test]
fn path_without_file_name_leaves_the_text_unchanged() {
    let text = b"x = \"${name}\"".to_vec();
    assert_eq!(apply_replacements("", text.clone()), text);
    assert_eq!(apply_replacements("materials/", text.clone()), text);
    assert_eq!(apply_replacements("materials/..", text.clone()), text);
    assert_eq!(apply_replacements(".", text.clone()), text);
}

#[test]
fn replacement_can_be_switched_off() {
    let mut loader = GenericMaterialLoader::new();
    let text = b"x = \"${name}\"".to_vec();
    assert_eq!(loader.prepare_text("stone.toml", text.clone()), b"x = \"stone\"".to_vec());
    loader.do_text_replacements = false;
    assert_eq!(loader.prepare_text("stone.toml", text.clone()), text);
}

#[test]
fn file_stem_is_the_name_up_to_its_first_dot() {
    assert_eq!(file_stem_of("materials/example.material.toml"), Some("example"));
    assert_eq!(file_stem_of("example.toml"), Some("example"));
    assert_eq!(file_stem_of("a\\b\\stone.mat"), Some("stone"));
    assert_eq!(file_stem_of("remote://a/stone"), Some("stone"));
    assert_eq!(file_stem_of("a/.hidden.toml"), Some(".hidden"));
    assert_eq!(file_stem_of("a/.hidden"), Some(".hidden"));
    assert_eq!(file_stem_of("a/b.c/d"), Some("d"));
    assert_eq!(file_stem_of("a/\u{e9}t\u{e9}.toml"), Some("\u{e9}t\u{e9}"));
    assert_eq!(file_stem_of("a/"), None);
    assert_eq!(file_stem_of(""), None);
    assert_eq!(file_stem_of("a/."), None);
    assert_eq!(file_stem_of(".."), None);
    assert_eq!(file_stem_of("..."), Some("."));
}

#[test]
fn replace_all_takes_occurrences_from_the_left() {
    assert_eq!(replace_all(b"aaaa", b"aa", b"b"), b"bb".to_vec());
    assert_eq!(replace_all(b"aaa", b"aa", b"b"), b"ba".to_vec());
    assert_eq!(replace_all(b"abc", b"", b"x"), b"abc".to_vec());
    assert_eq!(replace_all(b"abc", b"abcd", b"x"), b"abc".to_vec());
    assert_eq!(replace_all(b"abcabc", b"bc", b""), b"aa".to_vec());
    assert_eq!(replace_all(b"", b"a", b"b"), Vec::<u8>::new());
    assert_eq!(replace_all(b"xay", b"a", b"a"), b"xay".to_vec());
}
