use game_test::characters::{
    AbilityType, Attack, AttackTag, CharacterSkills, CharacterType, ComplicationType, CoreSkill,
    DCTag, GearKit, GearKitType, Initiative, LanguageLevel, LanguageType, PlayerName, PlotHook,
    PortraitAtlasId, SaveCharacters, SaveDirectorCharacter, SavePlayerCharacter, Skill, SkillType,
    Vitality, DEFAULT_SKILL,
};
use game_test::error::GameError;
use game_test::initiative::initiative_from_roll;
use game_test::roster::{find_portrait, Identity, Roster};

fn saved_player(tag: &str, skills: Vec<SkillType>) -> SavePlayerCharacter {
    SavePlayerCharacter {
        tag: tag.to_string(),
        name: PlayerName {
            first: format!("{tag}-first"),
            last: format!("{tag}-last"),
            alias: format!("{tag}-alias"),
        },
        profession: "pilot".to_string(),
        skills,
        vitality: 6,
        abilities: vec![AbilityType::Pilot],
        complications: vec![ComplicationType::Honest],
        languages: vec![LanguageType { name: "French".to_string(), level: LanguageLevel::Native }],
        plot_hooks: vec![PlotHook::ArchEnemy],
        gear_kits: vec![GearKit { kit_type: GearKitType::Camera, signature: true, scene: false }],
    }
}

fn saved_director(tag: &str, initiative: u8) -> SaveDirectorCharacter {
    SaveDirectorCharacter {
        tag: tag.to_string(),
        tags: vec![DCTag::Mook, DCTag::Flips(2)],
        initiative,
        vitality: 2,
        attacks: vec![Attack {
            name: "baton".to_string(),
            skill: 40,
            damage: 3,
            tags: vec![AttackTag::ShortRange, AttackTag::Reload(1)],
        }],
    }
}

fn save() -> SaveCharacters {
    SaveCharacters {
        player_characters: vec![
            saved_player("paul", vec![SkillType::Charm(30), SkillType::Agility(65)]),
            saved_player("frida", vec![SkillType::Alertness(70), SkillType::Sneak(20)]),
            saved_player("paul", vec![SkillType::Agility(1)]),
        ],
        director_characters: vec![saved_director("guard_1", 2), saved_director("frida", 9)],
    }
}

#[test]
fn small_builders_keep_their_values() {
    assert_eq!(Skill::new(42).value, 42);
    assert_eq!(Skill::default().value, 15);
    assert_eq!(DEFAULT_SKILL, 15);
    assert_eq!(Vitality::new(7).value, 7);
    assert_eq!(Initiative::new(9).value, 9);
    assert_eq!(PortraitAtlasId::default().index, 0);
    let skills = CharacterSkills::new(1, 2, 3);
    assert_eq!((skills.agility.value, skills.alertness.value, skills.sneak.value), (1, 2, 3));
}

#[test]
fn a_skill_is_read_from_its_first_entry() {
    let pc = saved_player(
        "x",
        vec![
            SkillType::Charm(80),
            SkillType::Sneak(33),
            SkillType::Agility(44),
            SkillType::Agility(99),
            SkillType::Sneak(1),
        ],
    );
    assert_eq!(pc.get_agility(), 44);
    assert_eq!(pc.get_sneak(), 33);
    assert_eq!(pc.get_alertness(), 15);
    assert_eq!(pc.get_skill(CoreSkill::Agility), 44);
}

#[test]
fn a_record_without_skills_has_the_defaults() {
    let pc = saved_player("x", vec![]);
    assert_eq!(pc.get_agility(), 15);
    assert_eq!(pc.get_alertness(), 15);
    assert_eq!(pc.get_sneak(), 15);
}

#[test]
fn a_saved_player_rolls_against_its_alertness() {
    let pc = saved_player("x", vec![SkillType::Alertness(70)]);
    for _ in 0..100 {
        let value = pc.initiative();
        assert!((1u8..=100).any(|roll| initiative_from_roll(70, roll) == value));
    }
}

#[test]
fn a_tag_finds_the_first_player_before_any_director() {
    let save = save();
    match save.get_char_for_tag("paul".to_string()) {
        Some(CharacterType::PlayerCharacter { char }) => {
            assert_eq!(char.get_agility(), 65);
            assert!(std::ptr::eq(char, &save.player_characters[0]));
        }
        _ => panic!("paul is a player character"),
    }
    match save.get_char_for_tag("frida".to_string()) {
        Some(CharacterType::PlayerCharacter { char }) => assert_eq!(char.get_alertness(), 70),
        _ => panic!("frida the player comes before frida the director"),
    }
    match save.get_char_for_tag("guard_1".to_string()) {
        Some(CharacterType::DirectorCharacter { char }) => assert_eq!(char.initiative, 2),
        _ => panic!("guard_1 is a director character"),
    }
    assert!(save.get_char_for_tag("nobody".to_string()).is_none());
}

#[test]
fn the_standard_cast_is_as_defined() {
    let roster = Roster::standard();
    assert_eq!(roster.len(), 10);
    let slugs: Vec<&str> = roster.all().iter().map(|c| c.slug().as_str()).collect();
    assert_eq!(
        slugs,
        vec![
            "elektra", "yurika", "paul", "harry", "frida", "eloise", "narrator", "empty",
            "guard_1", "guard_2"
        ]
    );
    let frida = &roster.characters[4];
    assert_eq!(frida.alias(), "Frida");
    match &frida.identity {
        Identity::Named(name) => {
            assert_eq!(name.first, "Anni-Frid");
            assert_eq!(name.last, "Bäckströn");
        }
        Identity::Generic(_) => panic!("frida has names of her own"),
    }
    let skills = frida.skills.unwrap();
    assert_eq!((skills.agility.value, skills.alertness.value, skills.sneak.value), (45, 65, 15));
    assert_eq!(frida.vitality.unwrap().value, 6);
    assert_eq!(roster.characters[5].alias(), "Éloïse");
    assert_eq!(roster.characters[6].alias(), "Narrator");
    assert!(roster.characters[6].skills.is_none());
    assert!(roster.characters[6].icon.is_none());
    assert_eq!(roster.characters[7].alias(), "");
    match &roster.characters[8].identity {
        Identity::Generic(name) => {
            assert_eq!(name.alias, "Guard 1");
            assert_eq!(name.generic, "octopus_guard");
        }
        Identity::Named(_) => panic!("a guard goes by a generic name"),
    }
    assert_eq!(roster.characters[8].icon.as_ref().unwrap().slug, "guard");
    assert_eq!(roster.characters[9].initiative.unwrap().value, 2);
    assert_eq!(roster.characters[9].vitality.unwrap().value, 2);
    assert!(roster.all().iter().all(|c| !c.in_scene && c.zone.is_none()));
}

#[test]
fn find_gives_the_first_place_or_not_found() {
    let mut roster = Roster::standard();
    assert_eq!(roster.find("elektra"), Ok(0));
    assert_eq!(roster.find("guard_2"), Ok(9));
    assert_eq!(roster.find("nobody"), Err(GameError::NotFound));
    assert_eq!(roster.find(""), Err(GameError::NotFound));
    let again = roster.characters[2].clone();
    let at = roster.add(again);
    assert_eq!(at, 10);
    assert_eq!(roster.find("paul"), Ok(2));
    assert_eq!(Roster::new().find("paul"), Err(GameError::NotFound));
    assert!(roster.get(10).is_some());
    assert!(roster.get(11).is_none());
    assert_eq!(roster.get(3).unwrap().slug(), "harry");
}

#[test]
fn load_takes_players_then_directors_in_saved_order() {
    let roster = Roster::load(&save());
    assert_eq!(roster.len(), 5);
    let slugs: Vec<&str> = roster.all().iter().map(|c| c.slug().as_str()).collect();
    assert_eq!(slugs, vec!["paul", "frida", "paul", "guard_1", "frida"]);
    let paul = &roster.characters[0];
    assert_eq!(paul.alias(), "paul-alias");
    assert_eq!(paul.skills.unwrap().agility.value, 65);
    assert_eq!(paul.skills.unwrap().alertness.value, 15);
    assert_eq!(paul.vitality.unwrap().value, 6);
    assert_eq!(paul.icon.as_ref().unwrap().slug, "paul");
    assert!(paul.initiative.is_none());
    let guard = &roster.characters[3];
    assert_eq!(guard.alias(), "guard_1");
    assert!(guard.skills.is_none());
    assert_eq!(guard.initiative.unwrap().value, 2);
    assert_eq!(guard.vitality.unwrap().value, 2);
    assert!(matches!(guard.identity, Identity::Generic(_)));
}

#[test]
fn the_last_file_with_the_stem_gives_the_portrait() {
    let stems = vec![
        Some("paul".to_string()),
        None,
        Some("frida".to_string()),
        Some("paul".to_string()),
    ];
    assert_eq!(find_portrait(&stems, &"paul".to_string()), Some(3));
    assert_eq!(find_portrait(&stems, &"frida".to_string()), Some(2));
    assert_eq!(find_portrait(&stems, &"harry".to_string()), None);
    assert_eq!(find_portrait(&vec![], &"paul".to_string()), None);
}

#[test]
fn portraits_go_by_the_icon() {
    let mut roster = Roster::standard();
    let stems = vec![
        Some("guard".to_string()),
        Some("elektra".to_string()),
        None,
        Some("narrator".to_string()),
        Some("elektra".to_string()),
    ];
    roster.assign_portraits(&stems);
    assert_eq!(roster.characters[0].portrait.index, 4);
    assert_eq!(roster.characters[1].portrait.index, 0);
    assert_eq!(roster.characters[6].portrait.index, 0);
    assert_eq!(roster.characters[8].portrait.index, 0);
    assert_eq!(roster.characters[9].portrait.index, 0);
    assert_eq!(roster.len(), 10);
    assert_eq!(roster.characters[0].slug(), "elektra");
}

#[test]
fn a_guard_portrait_that_is_not_first_is_assigned() {
    let mut roster = Roster::standard();
    let stems = vec![Some("x".to_string()), Some("guard".to_string())];
    roster.assign_portraits(&stems);
    assert_eq!(roster.characters[8].portrait.index, 1);
    assert_eq!(roster.characters[9].portrait.index, 1);
}

#[test]
fn only_portrayed_players_are_enlisted() {
    let mut roster = Roster::new();
    roster.add(Roster::standard().characters.remove(6));
    let stems = vec![Some("frida".to_string()), Some("other".to_string())];
    roster.enlist_saved(&save(), &stems);
    assert_eq!(roster.len(), 2);
    assert_eq!(roster.characters[0].slug(), "narrator");
    assert_eq!(roster.characters[1].slug(), "frida");
    assert_eq!(roster.characters[1].portrait.index, 0);
    assert_eq!(roster.characters[1].skills.unwrap().alertness.value, 70);
    let stems = vec![None, Some("paul".to_string())];
    roster.enlist_saved(&save(), &stems);
    assert_eq!(roster.len(), 4);
    assert_eq!(roster.characters[2].skills.unwrap().agility.value, 65);
    assert_eq!(roster.characters[3].skills.unwrap().agility.value, 1);
    assert_eq!(roster.characters[3].portrait.index, 1);
}

#[test]
fn place_sets_an_unresolved_membership() {
    let mut roster = Roster::standard();
    roster.place(2, "cell_a_13");
    let zone = roster.characters[2].zone.as_ref().unwrap();
    assert_eq!(zone.name, "cell_a_13");
    assert!(zone.area.is_none());
    assert!(roster.characters[1].zone.is_none());
    roster.place(99, "central");
    assert_eq!(roster.len(), 10);
    assert!(roster.all().iter().filter(|c| c.zone.is_some()).count() == 1);
}
