use feotae::input::{parse_input_str, unrecognised_input_message, Input};
use feotae::item::{get_article, Item};

#[test]
fn input_parse_test() {
    assert_eq!(parse_input_str(""), Input::NoOp);
    assert_eq!(parse_input_str("go north"), Input::Go("north".to_string()));
    assert_eq!(parse_input_str("look north"), Input::Look("north".to_string()));
    assert_eq!(parse_input_str("examine spade"), Input::Look("spade".to_string()));
    assert_eq!(parse_input_str("search"), Input::Search);
    assert_eq!(parse_input_str("take"), Input::NoOp);
    assert_eq!(parse_input_str("take all"), Input::Take("all".to_string()));
}

#[test]
fn parse_is_total_on_required_inputs() {
    assert_eq!(parse_input_str(""), Input::NoOp);
    assert_eq!(parse_input_str("search"), Input::Search);
    assert_eq!(parse_input_str("go north"), Input::Go("north".to_string()));
    assert_eq!(parse_input_str("take all"), Input::Take("all".to_string()));
    assert_eq!(
        parse_input_str("use key on door"),
        Input::UseWith("key".to_string(), "door".to_string())
    );
}

#[test]
fn parse_verb_variants() {
    assert_eq!(parse_input_str("enter cave"), Input::Go("cave".to_string()));
    assert_eq!(parse_input_str("look at lever"), Input::Look("lever".to_string()));
    assert_eq!(parse_input_str("look at"), Input::Look("at".to_string()));
    assert_eq!(parse_input_str("use lever"), Input::Use("lever".to_string()));
    assert_eq!(
        parse_input_str("use spade with mound"),
        Input::UseWith("spade".to_string(), "mound".to_string())
    );
    assert_eq!(parse_input_str("take rusty key"), Input::Take("rusty key".to_string()));
    assert_eq!(parse_input_str("exit"), Input::Exit);
}

#[test]
fn parse_menu_commands() {
    assert_eq!(parse_input_str("save"), Input::Save(None));
    assert_eq!(parse_input_str("save slot1"), Input::Save(Some("slot1".to_string())));
    assert_eq!(parse_input_str("load"), Input::Load(None));
    assert_eq!(parse_input_str("load slot1"), Input::Load(Some("slot1".to_string())));
}

#[test]
fn parse_rejects_unknown_input() {
    assert_eq!(parse_input_str("xyzzy"), Input::NoOp);
    assert_eq!(parse_input_str("go"), Input::NoOp);
    assert_eq!(parse_input_str("go  "), Input::NoOp);
    assert_eq!(parse_input_str("go two words"), Input::NoOp);
    assert_eq!(parse_input_str("take "), Input::NoOp);
    assert_eq!(parse_input_str("use key on"), Input::NoOp);
    assert_eq!(parse_input_str("Search"), Input::NoOp);
    assert_eq!(parse_input_str("search please"), Input::NoOp);
}

#[test]
fn unrecognised_message_text() {
    let m = unrecognised_input_message("frob the widget");
    assert_eq!(m, "Unrecognised input: \"frob the widget\" (no match)");
}

#[test]
fn test_get_article() {
    let a = "a".to_string();
    let an = "an".to_string();
    assert_eq!(get_article(&"foo".to_string()), a);
    assert_eq!(get_article(&"abacus".to_string()), an);
    assert_eq!(get_article(&"yellow".to_string()), a);
    assert_eq!(get_article(&"hour".to_string()), an);
}

#[test]
fn article_selection() {
    assert_eq!(get_article(&"apple".to_string()), "an".to_string());
    assert_eq!(get_article(&"banana".to_string()), "a".to_string());
    assert_eq!(get_article(&"hour".to_string()), "an".to_string());
    assert_eq!(get_article(&"year".to_string()), "a".to_string());
    assert_eq!(get_article(&"".to_string()), "a".to_string());
}

#[test]
fn items_to_text_rendering() {
    assert_eq!(Item::items_to_text(&vec![]), None);
    assert_eq!(
        Item::items_to_text(&vec!["apple".to_string()]),
        Some("an apple".to_string())
    );
    assert_eq!(
        Item::items_to_text(&vec!["banana".to_string(), "apple".to_string()]),
        Some("a banana and an apple".to_string())
    );
    assert_eq!(
        Item::items_to_text(&vec![
            "banana".to_string(),
            "apple".to_string(),
            "spade".to_string()
        ]),
        Some("a banana, an apple and a spade".to_string())
    );
    assert_eq!(
        Item::items_to_text(&vec![
            "apple".to_string(),
            "banana".to_string(),
            "hour".to_string()
        ]),
        Some("an apple, a banana and an hour".to_string())
    );
}
