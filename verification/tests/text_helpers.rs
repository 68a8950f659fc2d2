use mcp_prompts_rs::text::{
    concat_text, copy_optional_text, copy_optional_texts, copy_text, copy_texts, frame,
    same_optional_text, same_optional_texts, same_text, same_texts,
};

fn texts(items: &[&str]) -> Vec<String> {
    items.iter().map(|item| item.to_string()).collect()
}

#[test]
fn texts_are_joined_in_order() {
    assert_eq!(concat_text("ab", "cd"), "abcd");
    assert_eq!(concat_text("", "x"), "x");
    assert_eq!(concat_text("x", ""), "x");
    assert_eq!(frame("Prompt '", "7", "' not found"), "Prompt '7' not found");
    assert_eq!(frame("", "", ""), "");
    assert_eq!(frame("é", "ß", "ü"), "éßü");
}

#[test]
fn copies_hold_the_same_characters() {
    assert_eq!(copy_text(&"données".to_string()), "données");
    assert_eq!(copy_optional_text(&None), None);
    assert_eq!(copy_optional_text(&Some("x".to_string())), Some("x".to_string()));
    assert_eq!(copy_texts(&texts(&["b", "a", "c"])), texts(&["b", "a", "c"]));
    assert_eq!(copy_texts(&Vec::new()), Vec::<String>::new());
    assert_eq!(copy_optional_texts(&None), None);
    assert_eq!(copy_optional_texts(&Some(texts(&["a", "b"]))), Some(texts(&["a", "b"])));
}

#[test]
fn comparisons_go_by_characters_and_order() {
    assert!(same_text(&"a".to_string(), &"a".to_string()));
    assert!(!same_text(&"a".to_string(), &"A".to_string()));
    assert!(same_optional_text(&None, &None));
    assert!(!same_optional_text(&None, &Some(String::new())));
    assert!(!same_optional_text(&Some("a".to_string()), &Some("b".to_string())));
    assert!(same_optional_text(&Some("a".to_string()), &Some("a".to_string())));
    assert!(same_texts(&texts(&["a", "b"]), &texts(&["a", "b"])));
    assert!(!same_texts(&texts(&["a", "b"]), &texts(&["b", "a"])));
    assert!(!same_texts(&texts(&["a"]), &texts(&["a", "b"])));
    assert!(same_texts(&Vec::new(), &Vec::new()));
    assert!(same_optional_texts(&None, &None));
    assert!(!same_optional_texts(&None, &Some(Vec::new())));
    assert!(same_optional_texts(&Some(texts(&["a"])), &Some(texts(&["a"]))));
    assert!(!same_optional_texts(&Some(texts(&["a"])), &Some(texts(&["b"]))));
}
