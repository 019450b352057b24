use feotae::game::{Game, TraversalErrorKind};
use feotae::item::Item;
use feotae::path::Path;
use feotae::stage::Stage;
use feotae::trigger::{Trigger, TriggerAction};

fn plain_path(description: &str, destination: &str) -> Path {
    Path {
        description: description.to_string(),
        detailed_description: format!("You peer closely at the {}.", description),
        destination: destination.to_string(),
        locked_by: None,
        locked_text: None,
        hidden_unless: None,
        hidden_text: None,
    }
}

fn sample_game(player_inventory: Vec<String>, flags: Vec<String>) -> Game {
    let mut east = plain_path("a path to the east", "second");
    east.hidden_unless = Some("lever".to_string());
    let mut gate = plain_path("a heavy gate", "second");
    gate.locked_by = Some("key".to_string());
    gate.locked_text = Some("It's locked tight.".to_string());
    let mut cellar = plain_path("a cellar door", "second");
    cellar.hidden_unless = Some("lamp lit".to_string());
    cellar.locked_by = Some("crowbar".to_string());
    let first = Stage {
        description: "A test stage.".to_string(),
        paths: vec![
            ("north".to_string(), plain_path("north path", "first")),
            ("east".to_string(), east),
            ("gate".to_string(), gate),
            ("cellar".to_string(), cellar),
        ],
        items: vec!["spade".to_string(), "rock".to_string()],
        triggers: vec![(
            "use lever".to_string(),
            Trigger {
                flag: "lever".to_string(),
                description: "A rusty lever.".to_string(),
                visible: true,
                action: TriggerAction::Toggle,
            },
        ), (
            "use plate".to_string(),
            Trigger {
                flag: "plate".to_string(),
                description: "A pressure plate.".to_string(),
                visible: false,
                action: TriggerAction::SetFlag,
            },
        )],
    };
    let second = Stage {
        description: "A second stage.".to_string(),
        paths: vec![],
        items: vec![],
        triggers: vec![(
            "on enter".to_string(),
            Trigger {
                flag: "entered".to_string(),
                description: "".to_string(),
                visible: false,
                action: TriggerAction::SetFlag,
            },
        )],
    };
    let inventory = vec![(
        "spade".to_string(),
        Item {
            name: "spade".to_string(),
            description: "A sturdy spade.".to_string(),
            hidden: None,
        },
    )];
    Game::new(
        "the great test".to_string(),
        "test game for testing".to_string(),
        inventory,
        player_inventory,
        vec![("first".to_string(), first), ("second".to_string(), second)],
        flags,
        "first".to_string(),
        "default".to_string(),
    )
    .unwrap()
}

#[test]
fn hidden_precedes_locked() {
    // The cellar path has both its flag unmet and its item missing: the
    // verdict must be Hidden, never Locked.
    let g = sample_game(vec![], vec![]);
    let stage = g.current_stage();
    let path = stage.get_path(&"cellar".to_string()).unwrap();
    assert_eq!(g.is_path_traversable(path), Err(TraversalErrorKind::Hidden));
}

#[test]
fn locked_when_not_hidden() {
    let g = sample_game(vec![], vec![]);
    let stage = g.current_stage();
    let path = stage.get_path(&"gate".to_string()).unwrap();
    assert_eq!(g.is_path_traversable(path), Err(TraversalErrorKind::Locked));
    let g2 = sample_game(vec!["key".to_string()], vec![]);
    let stage2 = g2.current_stage();
    let path2 = stage2.get_path(&"gate".to_string()).unwrap();
    assert_eq!(g2.is_path_traversable(path2), Ok("second".to_string()));
}

#[test]
fn unconstrained_path_is_traversable() {
    let g = sample_game(vec![], vec![]);
    let stage = g.current_stage();
    let path = stage.get_path(&"north".to_string()).unwrap();
    assert_eq!(g.is_path_traversable(path), Ok("first".to_string()));
}

#[test]
fn take_moves_item_once() {
    let mut g = sample_game(vec![], vec![]);
    let out = g.take("spade".to_string());
    assert_eq!(out, "\nYou take the spade.");
    assert_eq!(g.player_inventory(), &vec!["spade".to_string()]);
}

#[test]
fn take_already_held_is_distinct_and_adds_no_duplicate() {
    // The stage still nominally lists "rock" while the player already
    // carries one: the distinct message appears and no duplicate is added.
    let mut g = sample_game(vec!["rock".to_string()], vec![]);
    let out = g.take("rock".to_string());
    assert!(out.contains("you already took it"));
    assert_eq!(g.player_inventory(), &vec!["rock".to_string()]);
}

#[test]
fn take_missing_item_is_neutral() {
    let mut g = sample_game(vec![], vec![]);
    let out = g.take("anvil".to_string());
    assert_eq!(out, "\nYou look around, but there's no anvil to take.");
    assert!(g.player_inventory().is_empty());
}

#[test]
fn take_all_empties_stage() {
    let mut g = sample_game(vec![], vec![]);
    let out = g.take("all".to_string());
    assert_eq!(out, "\nYou take a spade and a rock.");
    assert_eq!(
        g.player_inventory(),
        &vec!["spade".to_string(), "rock".to_string()]
    );
    let out2 = g.take("all".to_string());
    assert_eq!(out2, "\nYou look around, but there's no all to take.");
}

#[test]
fn toggle_twice_restores_flag() {
    let mut g = sample_game(vec![], vec![]);
    assert!(!g.is_flag_set(&"lever".to_string()));
    g.use_object("lever".to_string());
    assert!(g.is_flag_set(&"lever".to_string()));
    g.use_object("lever".to_string());
    assert!(!g.is_flag_set(&"lever".to_string()));
}

#[test]
fn set_twice_is_idempotent() {
    let mut g = sample_game(vec![], vec![]);
    g.use_object("plate".to_string());
    assert!(g.is_flag_set(&"plate".to_string()));
    g.use_object("plate".to_string());
    assert!(g.is_flag_set(&"plate".to_string()));
}

#[test]
fn use_with_requires_held_item() {
    let mut g = sample_game(vec![], vec![]);
    let out = g.use_item_with_object("key".to_string(), "gate".to_string());
    assert!(out.contains("you don't have a key to use."));
    let mut g2 = sample_game(vec!["key".to_string()], vec![]);
    let out2 = g2.use_item_with_object("key".to_string(), "gate".to_string());
    assert!(out2.contains("Oh no, you can't do that."));
}

#[test]
fn unknown_trigger_reports_cant_do() {
    let mut g = sample_game(vec![], vec![]);
    let out = g.use_object("fountain".to_string());
    assert_eq!(out, "use object \"fountain\"\nOh no, you can't do that.");
}

#[test]
fn search_skips_held_items() {
    let g = sample_game(vec![], vec![]);
    assert_eq!(g.search(), "\nYou found a spade and a rock");
    let g2 = sample_game(vec!["spade".to_string()], vec![]);
    assert_eq!(g2.search(), "\nYou found a rock");
    let g3 = sample_game(
        vec!["spade".to_string(), "rock".to_string()],
        vec![],
    );
    assert_eq!(g3.search(), "\nYou search the area, but find nothing.");
}

#[test]
fn look_prefers_paths_then_items() {
    let g = sample_game(vec![], vec![]);
    assert_eq!(
        g.look("north".to_string()),
        "\nYou peer closely at the north path."
    );
    assert_eq!(g.look("spade".to_string()), "\nA sturdy spade.");
    assert_eq!(
        g.look("ghost".to_string()),
        "\nYou look around, but see no \"ghost\"."
    );
}

fn expect_err(r: Result<Game, String>) -> String {
    match r {
        Ok(_) => panic!("expected an invalid world"),
        Err(e) => e,
    }
}

#[test]
fn new_rejects_invalid_worlds() {
    let err = expect_err(Game::new(
        "w".to_string(),
        "d".to_string(),
        vec![],
        vec![],
        vec![],
        vec![],
        "first".to_string(),
        "default".to_string(),
    ));
    assert_eq!(err, "undefined stage");

    let s = Stage {
        description: "s".to_string(),
        paths: vec![("out".to_string(), plain_path("out", "nowhere"))],
        items: vec![],
        triggers: vec![],
    };
    let err2 = expect_err(Game::new(
        "w".to_string(),
        "d".to_string(),
        vec![],
        vec![],
        vec![("first".to_string(), s)],
        vec![],
        "first".to_string(),
        "default".to_string(),
    ));
    assert_eq!(err2, "undefined path destination");

    let a = Stage {
        description: "a".to_string(),
        paths: vec![],
        items: vec![],
        triggers: vec![],
    };
    let b = Stage {
        description: "b".to_string(),
        paths: vec![],
        items: vec![],
        triggers: vec![],
    };
    let err3 = expect_err(Game::new(
        "w".to_string(),
        "d".to_string(),
        vec![],
        vec![],
        vec![("first".to_string(), a), ("first".to_string(), b)],
        vec![],
        "first".to_string(),
        "default".to_string(),
    ));
    assert_eq!(err3, "duplicate stage name");
}

fn empty_stage(description: &str) -> Stage {
    Stage {
        description: description.to_string(),
        paths: vec![],
        items: vec![],
        triggers: vec![],
    }
}

#[test]
fn new_rejects_duplicate_names_everywhere() {
    let item = Item {
        name: "key".to_string(),
        description: "a key".to_string(),
        hidden: None,
    };
    let err = expect_err(Game::new(
        "w".to_string(),
        "d".to_string(),
        vec![
            ("key".to_string(), item.clone()),
            ("key".to_string(), item),
        ],
        vec![],
        vec![("first".to_string(), empty_stage("a"))],
        vec![],
        "first".to_string(),
        "default".to_string(),
    ));
    assert_eq!(err, "duplicate item name");

    let err2 = expect_err(Game::new(
        "w".to_string(),
        "d".to_string(),
        vec![],
        vec![],
        vec![("first".to_string(), empty_stage("a"))],
        vec!["lever".to_string(), "lever".to_string()],
        "first".to_string(),
        "default".to_string(),
    ));
    assert_eq!(err2, "duplicate flag");

    let err3 = expect_err(Game::new(
        "w".to_string(),
        "d".to_string(),
        vec![],
        vec!["rock".to_string(), "rock".to_string()],
        vec![("first".to_string(), empty_stage("a"))],
        vec![],
        "first".to_string(),
        "default".to_string(),
    ));
    assert_eq!(err3, "duplicate player inventory entry");

    let mut twisty = empty_stage("a");
    twisty.paths = vec![
        ("out".to_string(), plain_path("out", "first")),
        ("out".to_string(), plain_path("out", "first")),
    ];
    let err4 = expect_err(Game::new(
        "w".to_string(),
        "d".to_string(),
        vec![],
        vec![],
        vec![("first".to_string(), twisty)],
        vec![],
        "first".to_string(),
        "default".to_string(),
    ));
    assert_eq!(err4, "duplicate path or trigger name");
}
