use mcp_prompts_rs::models::ident::PromptId;
use mcp_prompts_rs::models::prompt::Prompt;

fn sample() -> Prompt {
    Prompt {
        id: PromptId { bits: 0x11111111_2222_4333_8444_555555555555 },
        name: "greeting".to_string(),
        content: "Hello, {{name}}!".to_string(),
        category: Some("writing".to_string()),
        variables: Some(vec!["name".to_string()]),
        description: Some("Greets someone".to_string()),
    }
}

#[test]
fn new_keeps_the_given_fields_and_has_no_description() {
    let prompt = Prompt::new(
        "greeting".to_string(),
        "Hello, {{name}}!".to_string(),
        Some("writing".to_string()),
        Some(vec!["name".to_string(), "title".to_string()]),
    );
    assert_eq!(prompt.name, "greeting");
    assert_eq!(prompt.content, "Hello, {{name}}!");
    assert_eq!(prompt.category, Some("writing".to_string()));
    assert_eq!(prompt.variables, Some(vec!["name".to_string(), "title".to_string()]));
    assert_eq!(prompt.description, None);
}

#[test]
fn new_draws_an_identifier_of_the_random_shape() {
    let prompt = Prompt::new("a".to_string(), "b".to_string(), None, None);
    let text = prompt.id.to_text();
    let chars: Vec<char> = text.chars().collect();
    assert_eq!(chars.len(), 36);
    assert_eq!(chars[14], '4');
    assert!(matches!(chars[19], '8' | '9' | 'a' | 'b'));
    assert_eq!((prompt.id.bits >> 76) & 0xf, 4);
    assert_eq!((prompt.id.bits >> 62) & 0x3, 2);
}

#[test]
fn new_draws_different_identifiers() {
    let first = Prompt::new("a".to_string(), "b".to_string(), None, None);
    let second = Prompt::new("a".to_string(), "b".to_string(), None, None);
    assert_ne!(first.id, second.id);
}

#[test]
fn a_prompt_is_valid_when_it_has_a_name() {
    let mut prompt = sample();
    assert!(prompt.is_valid());
    prompt.name = String::new();
    assert!(!prompt.is_valid());
    prompt.name = "é".to_string();
    assert!(prompt.is_valid());
}

#[test]
fn duplicate_holds_the_same_values() {
    let prompt = sample();
    let copy = prompt.duplicate();
    assert_eq!(copy, prompt);
    assert!(copy.same_as(&prompt));
}

#[test]
fn same_as_tells_every_field_apart() {
    let prompt = sample();
    assert!(prompt.same_as(&sample()));

    let mut other = sample();
    other.id = PromptId { bits: 1 };
    assert!(!prompt.same_as(&other));

    let mut other = sample();
    other.name = "farewell".to_string();
    assert!(!prompt.same_as(&other));

    let mut other = sample();
    other.content = String::new();
    assert!(!prompt.same_as(&other));

    let mut other = sample();
    other.category = None;
    assert!(!prompt.same_as(&other));

    let mut other = sample();
    other.variables = Some(vec![]);
    assert!(!prompt.same_as(&other));

    let mut other = sample();
    other.variables = None;
    assert!(!prompt.same_as(&other));

    let mut other = sample();
    other.description = Some("Greets".to_string());
    assert!(!prompt.same_as(&other));
}

#[test]
fn same_as_goes_by_the_order_of_the_variables() {
    let mut left = sample();
    left.variables = Some(vec!["a".to_string(), "b".to_string()]);
    let mut right = sample();
    right.variables = Some(vec!["b".to_string(), "a".to_string()]);
    assert!(!left.same_as(&right));
    right.variables = Some(vec!["a".to_string(), "b".to_string()]);
    assert!(left.same_as(&right));
}
