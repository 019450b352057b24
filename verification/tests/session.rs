use feotae::game::{Effect, Game};
use feotae::input::{parse_input_str, Input};
use feotae::path::Path;
use feotae::stage::Stage;
use feotae::trigger::{Trigger, TriggerAction};

fn lever_world() -> Game {
    // A stage `first` with a path `east` that is hidden unless `lever`.
    let east = Path {
        description: "a path to the east".to_string(),
        detailed_description: "The path winds east.".to_string(),
        destination: "second".to_string(),
        locked_by: None,
        locked_text: None,
        hidden_unless: Some("lever".to_string()),
        hidden_text: None,
    };
    let first = Stage {
        description: "A test stage.".to_string(),
        paths: vec![("east".to_string(), east)],
        items: vec![],
        triggers: vec![(
            "use lever".to_string(),
            Trigger {
                flag: "lever".to_string(),
                description: "A rusty lever.".to_string(),
                visible: true,
                action: TriggerAction::Toggle,
            },
        )],
    };
    let second = Stage {
        description: "You made it east.".to_string(),
        paths: vec![],
        items: vec![],
        triggers: vec![],
    };
    Game::new(
        "the great test".to_string(),
        "test game for testing".to_string(),
        vec![],
        vec![],
        vec![("first".to_string(), first), ("second".to_string(), second)],
        vec![],
        "first".to_string(),
        "default".to_string(),
    )
    .unwrap()
}

#[test]
fn go_through_hidden_path_end_to_end() {
    let mut g = lever_world();

    // Before the flag is set the hidden path refuses with the fallback text
    // and the player stays put.
    let out = g.go_dir("east".to_string());
    assert_eq!(out, "Locked!");
    assert_eq!(g.current_stage_name(), "first");

    // A trigger sets the flag; the same command now moves the player.
    g.use_object("lever".to_string());
    let out2 = g.go_dir("east".to_string());
    assert_eq!(out2, "");
    assert_eq!(g.current_stage_name(), "second");
}

#[test]
fn go_unknown_path_is_feedback() {
    let mut g = lever_world();
    let out = g.go_dir("west".to_string());
    assert_eq!(out, "Didn't understand \"west\"");
    assert_eq!(g.current_stage_name(), "first");
}

#[test]
fn on_enter_trigger_fires() {
    let east = Path {
        description: "east".to_string(),
        detailed_description: "".to_string(),
        destination: "second".to_string(),
        locked_by: None,
        locked_text: None,
        hidden_unless: None,
        hidden_text: None,
    };
    let first = Stage {
        description: "Start.".to_string(),
        paths: vec![("east".to_string(), east)],
        items: vec![],
        triggers: vec![],
    };
    let second = Stage {
        description: "A plate clicks underfoot.".to_string(),
        paths: vec![],
        items: vec![],
        triggers: vec![(
            "on enter".to_string(),
            Trigger {
                flag: "plate".to_string(),
                description: "".to_string(),
                visible: false,
                action: TriggerAction::SetFlag,
            },
        )],
    };
    let mut g = Game::new(
        "w".to_string(),
        "d".to_string(),
        vec![],
        vec![],
        vec![("first".to_string(), first), ("second".to_string(), second)],
        vec![],
        "first".to_string(),
        "default".to_string(),
    )
    .unwrap();
    assert!(!g.is_flag_set(&"plate".to_string()));
    g.go_dir("east".to_string());
    assert_eq!(g.current_stage_name(), "second");
    assert!(g.is_flag_set(&"plate".to_string()));
}

#[test]
fn process_input_dispatches() {
    let mut g = lever_world();
    let (out, eff) = g.process_input(parse_input_str("use lever"));
    assert_eq!(eff, Effect::Proceed);
    assert_eq!(out, "use object \"lever\"");
    assert!(g.is_flag_set(&"lever".to_string()));

    let (out2, eff2) = g.process_input(parse_input_str("go east"));
    assert_eq!(eff2, Effect::Proceed);
    assert_eq!(out2, "");
    assert_eq!(g.current_stage_name(), "second");

    let (_, eff3) = g.process_input(Input::Exit);
    assert_eq!(eff3, Effect::Exit);

    let (out4, eff4) = g.process_input(Input::NoOp);
    assert_eq!(eff4, Effect::Proceed);
    assert_eq!(out4, "");
}

#[test]
fn save_and_load_update_the_slot() {
    let mut g = lever_world();
    assert_eq!(g.savename(), "default");

    let (_, eff) = g.process_input(Input::Save(Some("slot1".to_string())));
    assert_eq!(eff, Effect::Save);
    assert_eq!(g.savename(), "slot1");

    // A bare save reuses the last-named slot.
    let (_, eff2) = g.process_input(Input::Save(None));
    assert_eq!(eff2, Effect::Save);
    assert_eq!(g.savename(), "slot1");

    let (_, eff3) = g.process_input(Input::Load(Some("other".to_string())));
    assert_eq!(eff3, Effect::Load);
    assert_eq!(g.savename(), "other");
}

#[test]
fn rebuilt_world_preserves_state() {
    // The library-side half of the snapshot round trip: a world rebuilt
    // from its own parts validates again and shows the same state. The byte
    // form itself is the persistence adapter's affair.
    let mut g = lever_world();
    g.use_object("lever".to_string());
    g.go_dir("east".to_string());
    let g2 = match Game::new(
        g.name().clone(),
        g.description().clone(),
        g.inventory().clone(),
        g.player_inventory().clone(),
        g.stages().clone(),
        g.flags().clone(),
        g.current_stage_name().clone(),
        g.savename().clone(),
    ) {
        Ok(g2) => g2,
        Err(e) => panic!("rebuilt world was rejected: {}", e),
    };
    assert_eq!(g2.name(), g.name());
    assert_eq!(g2.description(), g.description());
    assert_eq!(g2.current_stage_name(), g.current_stage_name());
    assert_eq!(g2.savename(), g.savename());
    assert_eq!(g2.player_inventory(), g.player_inventory());
    assert_eq!(g2.flags(), g.flags());
    assert!(g2.is_flag_set(&"lever".to_string()));
    assert_eq!(
        g2.display(g2.current_stage()),
        g.display(g.current_stage())
    );
}

#[test]
fn display_lists_visible_paths_and_triggers() {
    let g = lever_world();
    let out = g.display(g.current_stage());
    // The east path is hidden while `lever` is unset; the lever trigger is
    // visible.
    assert_eq!(out, "\nA test stage. A rusty lever.\n");

    let mut g2 = lever_world();
    g2.use_object("lever".to_string());
    let out2 = g2.display(g2.current_stage());
    assert_eq!(out2, "\nA test stage. a path to the east A rusty lever.\n");
}
