use game_test::characters::CharacterSkills;
use game_test::error::GameError;
use game_test::interactive_fiction::{
    check_scene, choice_text, names_actor, option_for_key, scene_text, skill_check, speaker,
    talk_text, update_actors_in_scene, update_speaker_logo, update_text, Choice, DialogEngine,
    DialogGraph, DialogNode, Intent, NodeKind, SkillCheck,
};
use game_test::roster::Roster;
use game_test::text::decimal_text;

fn id(at: usize) -> usize {
    100 + 10 * at
}

fn node(at: usize, kind: NodeKind, actors: &[&str], text: &str, next: Option<usize>) -> DialogNode {
    DialogNode {
        id: id(at),
        kind,
        text: text.to_string(),
        actors: actors.iter().map(|actor| actor.to_string()).collect(),
        choices: Vec::new(),
        next: next.map(id),
    }
}

fn option(text: &str, check: Option<&str>, next: usize) -> Choice {
    Choice { text: text.to_string(), check: check.map(|skill| skill.to_string()), next: id(next) }
}

fn cell_talk() -> DialogGraph {
    let mut choice = node(5, NodeKind::Choice, &[], "", None);
    choice.choices = vec![
        option("Sneak past", Some("sneak"), 6),
        option("Jump", Some("agility"), 7),
        option("Wait", None, 8),
    ];
    DialogGraph {
        nodes: vec![
            node(0, NodeKind::Start, &[], "", Some(1)),
            node(1, NodeKind::Join, &["observer"], "", Some(2)),
            node(2, NodeKind::Join, &["frida", "paul"], "", Some(3)),
            node(3, NodeKind::Talk, &["frida", "paul"], "Hello", Some(4)),
            node(4, NodeKind::Talk, &[], "It was dark.", Some(5)),
            choice,
            node(6, NodeKind::Talk, &["paul"], "We made it", Some(9)),
            node(7, NodeKind::Talk, &["paul"], "Ouch", Some(9)),
            node(8, NodeKind::Talk, &["ghost"], "...", Some(9)),
            node(9, NodeKind::Leave, &["frida"], "", Some(10)),
            node(10, NodeKind::Leave, &["observer"], "", None),
        ],
        start: id(0),
    }
}

fn in_scene(roster: &Roster) -> Vec<&str> {
    roster.all().iter().filter(|c| c.in_scene).map(|c| c.slug().as_str()).collect()
}

fn at_choice() -> (DialogEngine, Roster) {
    let mut engine = DialogEngine::open(cell_talk()).unwrap();
    let mut roster = Roster::standard();
    for _ in 0..6 {
        engine.interact_with(Intent::Advance, &roster, &vec![]);
        engine.update(&mut roster);
        engine.update(&mut roster);
    }
    assert_eq!(engine.current().id, id(5));
    (engine, roster)
}

#[test]
fn numbers_are_written_in_decimal() {
    assert_eq!(decimal_text(0), "0");
    assert_eq!(decimal_text(7), "7");
    assert_eq!(decimal_text(10), "10");
    assert_eq!(decimal_text(1905), "1905");
    assert_eq!(decimal_text(usize::MAX), usize::MAX.to_string());
}

#[test]
fn lines_are_put_together_from_their_parts() {
    assert_eq!(talk_text("Frida", "Hello"), "Frida: Hello");
    assert_eq!(talk_text("", ""), ": ");
    assert_eq!(scene_text("[\"frida\"]", true), "--- [\"frida\"] enters the scene.");
    assert_eq!(scene_text("[\"frida\"]", false), "--- [\"frida\"] exit the scene.");
    let choices = vec![option("Sneak past", None, 1), option("Jump", None, 2)];
    assert_eq!(choice_text(&choices), "Choice:\n1: Sneak past\n2: Jump");
    assert_eq!(choice_text(&vec![]), "Choice:");
    let many: Vec<Choice> = (0..11).map(|at| option(&format!("o{at}"), None, at)).collect();
    assert!(choice_text(&many).ends_with("\n9: o8\n10: o9\n11: o10"));
}

#[test]
fn a_sound_dialog_opens_at_its_start() {
    let graph = cell_talk();
    assert_eq!(graph.validate(), Ok(()));
    assert_eq!(graph.find(id(5)), Some(5));
    assert_eq!(graph.find(5), None);
    let engine = DialogEngine::open(graph).unwrap();
    assert_eq!(engine.current().id, id(0));
    assert_eq!(engine.current_kind(), NodeKind::Start);
    assert!(!engine.is_changed());
    assert!(!engine.is_ended());
}

#[test]
fn a_choice_that_leads_nowhere_is_a_configuration_error() {
    let mut graph = cell_talk();
    graph.nodes[5].choices[1].next = 999;
    assert_eq!(graph.validate(), Err(GameError::ConfigurationError));
    assert_eq!(DialogEngine::open(graph).unwrap_err(), GameError::ConfigurationError);
}

#[test]
fn a_next_or_a_start_that_is_not_there_is_a_configuration_error() {
    let mut graph = cell_talk();
    graph.nodes[3].next = Some(4);
    assert_eq!(DialogEngine::open(graph).unwrap_err(), GameError::ConfigurationError);
    let mut graph = cell_talk();
    graph.start = 0;
    assert_eq!(DialogEngine::open(graph).unwrap_err(), GameError::ConfigurationError);
    let empty = DialogGraph { nodes: vec![], start: 0 };
    assert_eq!(DialogEngine::open(empty).unwrap_err(), GameError::ConfigurationError);
}

#[test]
fn the_start_shows_nothing_until_the_player_goes_on() {
    let mut engine = DialogEngine::open(cell_talk()).unwrap();
    let mut roster = Roster::standard();
    assert!(engine.update(&mut roster).is_none());
    assert_eq!(engine.current().id, id(0));
    assert!(update_text(engine.current(), &roster).is_none());
}

#[test]
fn an_observer_join_is_passed_without_a_word() {
    let mut engine = DialogEngine::open(cell_talk()).unwrap();
    let mut roster = Roster::standard();
    assert!(engine.next_action());
    assert_eq!(engine.current().id, id(1));
    assert!(engine.is_changed());
    let scene = engine.update(&mut roster).unwrap();
    assert!(scene.line.is_none());
    assert!(scene.auto_advanced);
    assert!(!scene.ended);
    assert_eq!(engine.current().id, id(2));
    assert!(engine.is_changed());
    assert!(in_scene(&roster).is_empty());
    let scene = engine.update(&mut roster).unwrap();
    assert_eq!(scene.line.as_deref(), Some("--- [\"frida\", \"paul\"] enters the scene."));
    assert!(!scene.auto_advanced);
    assert_eq!(engine.current().id, id(2));
    assert!(!engine.is_changed());
}

#[test]
fn an_update_is_given_once_for_each_node() {
    let mut engine = DialogEngine::open(cell_talk()).unwrap();
    let mut roster = Roster::standard();
    engine.next_action();
    assert!(engine.update(&mut roster).is_some());
    assert!(engine.update(&mut roster).is_some());
    assert!(engine.update(&mut roster).is_none());
    assert!(engine.update(&mut roster).is_none());
    assert_eq!(engine.current().id, id(2));
}

#[test]
fn joining_and_leaving_change_who_is_in_the_scene() {
    let mut engine = DialogEngine::open(cell_talk()).unwrap();
    let mut roster = Roster::standard();
    engine.next_action();
    engine.update(&mut roster);
    assert!(in_scene(&roster).is_empty());
    engine.update(&mut roster);
    assert_eq!(in_scene(&roster), vec!["paul", "frida"]);
    let join = node(0, NodeKind::Join, &["frida"], "", None);
    let leave = node(1, NodeKind::Leave, &["frida"], "", None);
    let mut roster = Roster::standard();
    update_actors_in_scene(&join, &mut roster);
    assert_eq!(in_scene(&roster), vec!["frida"]);
    update_actors_in_scene(&leave, &mut roster);
    assert!(in_scene(&roster).is_empty());
}

#[test]
fn a_join_and_a_leave_of_one_who_was_there_take_her_out() {
    let join = node(0, NodeKind::Join, &["frida"], "", None);
    let leave = node(1, NodeKind::Leave, &["frida"], "", None);
    let mut roster = Roster::standard();
    roster.characters[4].in_scene = true;
    roster.characters[2].in_scene = true;
    update_actors_in_scene(&join, &mut roster);
    assert_eq!(in_scene(&roster), vec!["paul", "frida"]);
    update_actors_in_scene(&leave, &mut roster);
    assert_eq!(in_scene(&roster), vec!["paul"]);
}

#[test]
fn talk_and_choice_nodes_move_nobody() {
    let mut roster = Roster::standard();
    roster.characters[4].in_scene = true;
    update_actors_in_scene(&node(0, NodeKind::Talk, &["frida", "paul"], "x", None), &mut roster);
    update_actors_in_scene(&node(0, NodeKind::Choice, &["frida", "paul"], "", None), &mut roster);
    update_actors_in_scene(&node(0, NodeKind::Start, &["frida", "paul"], "", None), &mut roster);
    assert_eq!(in_scene(&roster), vec!["frida"]);
}

#[test]
fn the_first_actor_speaks_under_her_alias() {
    let roster = Roster::standard();
    let talk = node(3, NodeKind::Talk, &["eloise", "paul"], "Bonjour", None);
    assert_eq!(speaker(&talk, &roster), "Éloïse");
    assert_eq!(update_text(&talk, &roster).as_deref(), Some("Éloïse: Bonjour"));
    let narrated = node(4, NodeKind::Talk, &[], "It was dark.", None);
    assert_eq!(speaker(&narrated, &roster), "Narrator");
    assert_eq!(update_text(&narrated, &roster).as_deref(), Some("Narrator: It was dark."));
    assert_eq!(update_text(&narrated, &Roster::new()).as_deref(), Some("Narrator: It was dark."));
    let unknown = node(8, NodeKind::Talk, &["ghost"], "...", None);
    assert_eq!(speaker(&unknown, &roster), "");
    assert_eq!(update_text(&unknown, &roster).as_deref(), Some(": ..."));
}

#[test]
fn names_are_rendered_as_a_quoted_list() {
    let roster = Roster::standard();
    let join = node(2, NodeKind::Join, &["frida", "pa\"ul"], "", None);
    assert_eq!(
        update_text(&join, &roster).as_deref(),
        Some("--- [\"frida\", \"pa\\\"ul\"] enters the scene.")
    );
    let leave = node(9, NodeKind::Leave, &["frida"], "", None);
    assert_eq!(update_text(&leave, &roster).as_deref(), Some("--- [\"frida\"] exit the scene."));
    let nobody = node(9, NodeKind::Leave, &[], "", None);
    assert_eq!(update_text(&nobody, &roster).as_deref(), Some("--- [] exit the scene."));
    let observed = node(9, NodeKind::Leave, &["frida", "observer"], "", None);
    assert!(update_text(&observed, &roster).is_none());
}

#[test]
fn the_portrait_is_the_speakers() {
    let mut roster = Roster::standard();
    for (at, character) in roster.characters.iter_mut().enumerate() {
        character.portrait.index = 20 + at;
    }
    assert_eq!(update_speaker_logo(&node(3, NodeKind::Talk, &["frida"], "", None), &roster), 24);
    assert_eq!(update_speaker_logo(&node(3, NodeKind::Talk, &[], "", None), &roster), 26);
    assert_eq!(update_speaker_logo(&node(3, NodeKind::Choice, &["paul"], "", None), &roster), 22);
    assert_eq!(update_speaker_logo(&node(3, NodeKind::Join, &["frida"], "", None), &roster), 27);
    assert_eq!(update_speaker_logo(&node(3, NodeKind::Leave, &["frida"], "", None), &roster), 27);
    assert_eq!(update_speaker_logo(&node(3, NodeKind::Start, &[], "", None), &roster), 27);
    assert_eq!(update_speaker_logo(&node(3, NodeKind::Talk, &["ghost"], "", None), &roster), 0);
    let twin = roster.characters[4].clone();
    roster.add(twin);
    roster.characters[10].portrait.index = 99;
    assert_eq!(update_speaker_logo(&node(3, NodeKind::Talk, &["frida"], "", None), &roster), 99);
}

#[test]
fn names_are_matched_whole() {
    let actors = vec!["frida".to_string(), "observer".to_string()];
    assert!(names_actor(&actors, &"observer".to_string()));
    assert!(names_actor(&actors, &"frida".to_string()));
    assert!(!names_actor(&actors, &"observe".to_string()));
    assert!(!names_actor(&actors, &"Frida".to_string()));
    assert!(!names_actor(&vec![], &"frida".to_string()));
}

#[test]
fn number_keys_stand_for_the_first_ten_options() {
    for key in 1u8..=9 {
        assert_eq!(option_for_key(key), Some(key as usize - 1));
    }
    assert_eq!(option_for_key(0), Some(9));
    assert_eq!(option_for_key(10), None);
    assert_eq!(option_for_key(255), None);
}

#[test]
fn each_number_key_takes_its_own_option() {
    for (key, target) in [(1u8, 6usize), (2, 7), (3, 8)] {
        let (mut engine, roster) = at_choice();
        engine.interact_with(Intent::Select(key), &roster, &vec![50; 10]);
        assert_eq!(engine.current().id, id(target));
        assert!(engine.is_changed());
    }
}

#[test]
fn a_key_without_an_option_does_nothing() {
    for key in [4u8, 5, 9, 0, 10, 200] {
        let (mut engine, roster) = at_choice();
        let checks = engine.interact_with(Intent::Select(key), &roster, &vec![50; 10]);
        assert!(checks.is_empty());
        assert_eq!(engine.current().id, id(5));
        assert!(!engine.is_changed());
    }
    let (mut engine, roster) = at_choice();
    assert!(!engine.choose_action(3));
    assert!(engine.interact_with(Intent::Advance, &roster, &vec![]).is_empty());
    assert!(!engine.next_action());
    assert_eq!(engine.current().id, id(5));
}

#[test]
fn the_choice_lists_its_options_from_one() {
    let (engine, roster) = at_choice();
    assert_eq!(
        update_text(engine.current(), &roster).as_deref(),
        Some("Choice:\n1: Sneak past\n2: Jump\n3: Wait")
    );
}

#[test]
fn a_checked_option_tests_everybody_in_the_scene_and_goes_on_anyway() {
    let (mut engine, roster) = at_choice();
    assert_eq!(in_scene(&roster), vec!["paul", "frida"]);
    let rolls = vec![1, 1, 64, 1, 45, 1, 1, 1, 1, 1];
    let checks = engine.interact_with(Intent::Select(2), &roster, &rolls);
    assert_eq!(
        checks,
        vec![
            SkillCheck { who: 2, roll: 64, passed: true },
            SkillCheck { who: 4, roll: 45, passed: false },
        ]
    );
    assert_eq!(engine.current().id, id(7));
    let (mut engine, roster) = at_choice();
    let checks = engine.interact_with(Intent::Select(1), &roster, &vec![100; 10]);
    assert_eq!(
        checks,
        vec![
            SkillCheck { who: 2, roll: 100, passed: false },
            SkillCheck { who: 4, roll: 100, passed: false },
        ]
    );
    assert_eq!(engine.current().id, id(6));
    let (mut engine, roster) = at_choice();
    assert!(engine.interact_with(Intent::Select(3), &roster, &vec![1; 10]).is_empty());
    assert_eq!(engine.current().id, id(8));
}

#[test]
fn a_check_passes_below_the_skill() {
    let skills = CharacterSkills::new(65, 45, 20);
    assert!(skill_check(&"agility".to_string(), &skills, 64));
    assert!(!skill_check(&"agility".to_string(), &skills, 65));
    assert!(skill_check(&"sneak".to_string(), &skills, 19));
    assert!(!skill_check(&"sneak".to_string(), &skills, 20));
    assert!(!skill_check(&"alertness".to_string(), &skills, 1));
    assert!(!skill_check(&"".to_string(), &skills, 1));
}

#[test]
fn only_those_with_a_roll_and_skills_are_checked() {
    let mut roster = Roster::standard();
    for who in [0, 4, 6, 8] {
        roster.characters[who].in_scene = true;
    }
    let checks = check_scene(&"agility".to_string(), &roster, &vec![14, 0, 0, 0]);
    assert_eq!(checks, vec![SkillCheck { who: 0, roll: 14, passed: true }]);
    let checks = check_scene(&"agility".to_string(), &roster, &vec![15, 0, 0, 0, 44, 0, 0, 0, 0]);
    assert_eq!(
        checks,
        vec![
            SkillCheck { who: 0, roll: 15, passed: false },
            SkillCheck { who: 4, roll: 44, passed: true },
        ]
    );
}

#[test]
fn rolled_checks_are_made_with_the_die() {
    let (mut engine, roster) = at_choice();
    let checks = engine.interact(Intent::Select(2), &roster);
    assert_eq!(checks.len(), 2);
    assert_eq!((checks[0].who, checks[1].who), (2, 4));
    for check in checks {
        assert!((1..=100).contains(&check.roll));
        let agility = roster.characters[check.who].skills.unwrap().agility.value;
        assert_eq!(check.passed, check.roll < agility);
    }
    assert_eq!(engine.current().id, id(7));
}

#[test]
fn the_leaving_observer_ends_the_dialog() {
    let (mut engine, mut roster) = at_choice();
    engine.interact_with(Intent::Select(3), &roster, &vec![]);
    let scene = engine.update(&mut roster).unwrap();
    assert_eq!(scene.line.as_deref(), Some(": ..."));
    engine.interact_with(Intent::Advance, &roster, &vec![]);
    let scene = engine.update(&mut roster).unwrap();
    assert_eq!(scene.line.as_deref(), Some("--- [\"frida\"] exit the scene."));
    assert!(!scene.ended);
    assert_eq!(in_scene(&roster), vec!["paul"]);
    engine.interact_with(Intent::Advance, &roster, &vec![]);
    assert_eq!(engine.current().id, id(10));
    let scene = engine.update(&mut roster).unwrap();
    assert!(scene.line.is_none());
    assert!(scene.ended);
    assert!(!scene.auto_advanced);
    assert!(engine.is_ended());
    assert!(!engine.next_action());
    assert!(!engine.choose_action(0));
    assert!(engine.update(&mut roster).is_none());
    assert_eq!(engine.current().id, id(10));
}

#[test]
fn a_node_without_a_next_is_the_last() {
    let graph = DialogGraph {
        nodes: vec![
            node(0, NodeKind::Start, &[], "", Some(1)),
            node(1, NodeKind::Join, &["observer"], "", None),
        ],
        start: id(0),
    };
    let mut engine = DialogEngine::open(graph).unwrap();
    let mut roster = Roster::new();
    assert!(engine.next_action());
    let scene = engine.update(&mut roster).unwrap();
    assert!(!scene.auto_advanced);
    assert!(scene.line.is_none());
    assert!(!engine.next_action());
    assert!(!engine.is_changed());
    assert!(!engine.is_ended());
}

#[test]
fn an_intent_is_not_heard_before_the_update() {
    let mut engine = DialogEngine::open(cell_talk()).unwrap();
    let mut roster = Roster::standard();
    engine.interact_with(Intent::Advance, &roster, &vec![]);
    assert_eq!(engine.current().id, id(1));
    engine.interact_with(Intent::Advance, &roster, &vec![]);
    engine.interact_with(Intent::Select(1), &roster, &vec![]);
    assert_eq!(engine.current().id, id(1));
    engine.update(&mut roster);
    assert_eq!(engine.current().id, id(2));
    engine.interact_with(Intent::Advance, &roster, &vec![]);
    assert_eq!(engine.current().id, id(2));
    engine.update(&mut roster);
    engine.interact_with(Intent::Advance, &roster, &vec![]);
    assert_eq!(engine.current().id, id(3));
    let (mut engine, roster) = at_choice();
    let checks = engine.interact_with(Intent::Select(1), &roster, &vec![1; 10]);
    assert_eq!(checks.len(), 2);
    let checks = engine.interact_with(Intent::Select(1), &roster, &vec![1; 10]);
    assert!(checks.is_empty());
    assert_eq!(engine.current().id, id(6));
}
