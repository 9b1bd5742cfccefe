//! Character records: the pieces a character is made of, and the shape in
//! which player and director characters are saved.

use crate::initiative::{is_rolled_initiative, roll_initiative, MAX_INITIATIVE};
use vstd::prelude::*;

verus! {

/// The value a skill has when a character's record does not list it.
pub const DEFAULT_SKILL: u8 = 15;

/// Where a character's portrait sits in the portrait atlas.
#[derive(Debug, Clone, Copy)]
pub struct PortraitAtlasId {
    pub index: usize,
}

impl Default for PortraitAtlasId {
    fn default() -> (id: Self)
        ensures
            id.index == 0,
    {
        PortraitAtlasId { index: 0 }
    }
}

/// The name of the picture file that shows a character.
#[derive(Debug)]
pub struct IconName {
    pub slug: String,
}

impl IconName {
    pub fn new(slug: &str) -> (icon: Self)
        ensures
            icon.slug@ == slug@,
    {
        IconName { slug: slug.to_owned() }
    }
}

impl Clone for IconName {
    fn clone(&self) -> (copy: Self)
        ensures
            copy == *self,
    {
        IconName { slug: self.slug.clone() }
    }
}

/// The names of a player character or of an actor in a scene.
#[derive(Debug)]
pub struct CharacterName {
    pub slug: String,
    pub alias: String,
    pub first: String,
    pub last: String,
}

impl CharacterName {
    pub fn new(slug: &str, alias: &str, first: &str, last: &str) -> (name: Self)
        ensures
            name.slug@ == slug@,
            name.alias@ == alias@,
            name.first@ == first@,
            name.last@ == last@,
    {
        CharacterName {
            slug: slug.to_owned(),
            alias: alias.to_owned(),
            first: first.to_owned(),
            last: last.to_owned(),
        }
    }
}

impl Clone for CharacterName {
    fn clone(&self) -> (copy: Self)
        ensures
            copy == *self,
    {
        CharacterName {
            slug: self.slug.clone(),
            alias: self.alias.clone(),
            first: self.first.clone(),
            last: self.last.clone(),
        }
    }
}

/// One skill, as a chance out of a hundred.
#[derive(Debug, Clone, Copy)]
pub struct Skill {
    pub value: u8,
}

impl Default for Skill {
    fn default() -> (skill: Self)
        ensures
            skill.value == DEFAULT_SKILL,
    {
        Skill { value: DEFAULT_SKILL }
    }
}

impl Skill {
    pub fn new(value: u8) -> (skill: Self)
        ensures
            skill.value == value,
    {
        Skill { value }
    }
}

/// The three skills that the rules of combat and dialog read.
#[derive(Debug, Clone, Copy)]
pub struct CharacterSkills {
    pub agility: Skill,
    pub alertness: Skill,
    pub sneak: Skill,
}

impl CharacterSkills {
    pub fn new(agility: u8, alertness: u8, sneak: u8) -> (skills: Self)
        ensures
            skills.agility.value == agility,
            skills.alertness.value == alertness,
            skills.sneak.value == sneak,
    {
        CharacterSkills {
            agility: Skill::new(agility),
            alertness: Skill::new(alertness),
            sneak: Skill::new(sneak),
        }
    }
}

/// Hit points.
#[derive(Debug, Clone, Copy)]
pub struct Vitality {
    pub value: u8,
}

impl Vitality {
    pub fn new(value: u8) -> (vitality: Self)
        ensures
            vitality.value == value,
    {
        Vitality { value }
    }
}

/// A character's priority in the turn order of one combat.
#[derive(Debug, Clone, Copy)]
pub struct Initiative {
    pub value: u8,
}

impl Initiative {
    pub fn new(value: u8) -> (initiative: Self)
        ensures
            initiative.value == value,
    {
        Initiative { value }
    }
}

/// Everything a player character starts with.
#[derive(Debug)]
pub struct PlayerCharacter {
    pub name: CharacterName,
    pub icon: IconName,
    pub portrait: PortraitAtlasId,
    pub skills: CharacterSkills,
    pub vitality: Vitality,
}

/// Someone who only speaks in dialog scenes, such as the narrator.
#[derive(Debug)]
pub struct SceneActor {
    pub name: CharacterName,
    pub portrait: PortraitAtlasId,
}

/// The names of a director character, who goes by a generic name.
#[derive(Debug)]
pub struct NoName {
    pub slug: String,
    pub alias: String,
    pub generic: String,
}

impl NoName {
    pub fn new(slug: &str, alias: &str, generic: &str) -> (name: Self)
        ensures
            name.slug@ == slug@,
            name.alias@ == alias@,
            name.generic@ == generic@,
    {
        NoName { slug: slug.to_owned(), alias: alias.to_owned(), generic: generic.to_owned() }
    }
}

impl Clone for NoName {
    fn clone(&self) -> (copy: Self)
        ensures
            copy == *self,
    {
        NoName {
            slug: self.slug.clone(),
            alias: self.alias.clone(),
            generic: self.generic.clone(),
        }
    }
}

/// Everything a director character starts with.
#[derive(Debug)]
pub struct DirectorCharacter {
    pub name: NoName,
    pub icon: IconName,
    pub portrait: PortraitAtlasId,
    pub initiative: Initiative,
    pub vitality: Vitality,
}

/// A player character's names as they are saved.
#[derive(Debug)]
pub struct PlayerName {
    pub first: String,
    pub last: String,
    pub alias: String,
}

/// One trained skill of a saved player character, with its value.
#[derive(Debug, Clone, Copy)]
pub enum SkillType {
    Agility(u8),
    Alertness(u8),
    Charm(u8),
    Contacts(u8),
    Credit(u8),
    Electronics(u8),
    Endurance(u8),
    Engineering(u8),
    Entertainment(u8),
    Humanities(u8),
    Investigation(u8),
    Languages(u8),
    Machinery(u8),
    Medicine(u8),
    Melee(u8),
    Prestidigitation(u8),
    RangedCombat(u8),
    RedTape(u8),
    Science(u8),
    Search(u8),
    Security(u8),
    Sneak(u8),
    Status(u8),
    Strength(u8),
    Subterfuge(u8),
    Survival(u8),
    Vehicles(u8),
    Willpower(u8),
}

#[derive(Debug, Clone, Copy)]
pub enum AbilityType {
    BornBehindTheWheel,
    BeenEverywhere,
    PressCredentials,
    JudoBlackBelt,
    LockPicker,
    SixthSence,
    Peerage,
    Bushman,
    Pilot,
    MilitaryRank,
    FighterPilot,
    TechWiz,
    Young,
    MadInventor,
}

#[derive(Debug, Clone, Copy)]
pub enum ComplicationType {
    Overconfident,
    CodeOfHonour,
    BadReputation,
    Honest,
    Drunkard,
    Patriot,
    Underage,
    Sleepy,
}

#[derive(Debug, Clone, Copy)]
pub enum LanguageLevel {
    Native,
    Fluent,
    Learning4,
    Learning3,
    Learning2,
    Learning1,
    Learning0,
}

#[derive(Debug)]
pub struct LanguageType {
    pub name: String,
    pub level: LanguageLevel,
}

#[derive(Debug, Clone, Copy)]
pub enum PlotHook {
    MediaDarling,
    LookingForACase,
    LookingForAdventure,
    LookingForThePast,
    SecretService,
    ArchEnemy,
}

#[derive(Debug, Clone, Copy)]
pub enum GearKitType {
    BeachWear,
    Bicycle,
    Binoculars,
    Camera,
    CampingGear,
    ChemistryLabSet,
    CompactCar,
    DisguiseKit,
    ElectronicsToolbox,
    FilmCamera,
    FlashLight,
    Furisode,
    Handgun,
    HikingGear,
    HuntingRifle,
    LockPicks,
    MechanicsToolbox,
    OffRoadVecicle,
    ParadeUniform,
    PocketHandgun,
    RacingCar,
    RadioSet,
    Scooter,
    SkiGear,
    SportsCar,
    SurvivalGear,
    TapeRecorder,
    WadOfCash,
    WalkieTalkie,
}

#[derive(Debug, Clone, Copy)]
pub struct GearKit {
    pub kit_type: GearKitType,
    pub signature: bool,
    pub scene: bool,
}

/// The three skills that a saved record is asked for.
#[derive(Debug, Clone, Copy)]
pub enum CoreSkill {
    Agility,
    Alertness,
    Sneak,
}

/// The value that a skill entry gives to a core skill, if it is an entry for
/// that skill.
pub open spec fn rates(entry: SkillType, skill: CoreSkill) -> Option<u8> {
    match (entry, skill) {
        (SkillType::Agility(value), CoreSkill::Agility) => Some(value),
        (SkillType::Alertness(value), CoreSkill::Alertness) => Some(value),
        (SkillType::Sneak(value), CoreSkill::Sneak) => Some(value),
        _ => None,
    }
}

/// The value of a core skill in a list of skill entries: that of the first
/// entry for the skill, and the default where the list has none.
pub open spec fn rating(entries: Seq<SkillType>, skill: CoreSkill) -> u8
    decreases entries.len(),
{
    if entries.len() == 0 {
        DEFAULT_SKILL
    } else {
        match rates(entries[0], skill) {
            Some(value) => value,
            None => rating(entries.drop_first(), skill),
        }
    }
}

/// `at` is the place of the first entry for the skill.
pub open spec fn is_first_entry(entries: Seq<SkillType>, skill: CoreSkill, at: int) -> bool {
    &&& 0 <= at < entries.len()
    &&& rates(entries[at], skill) is Some
    &&& forall|j: int| 0 <= j < at ==> rates(#[trigger] entries[j], skill) is None
}

/// Where the entries before `from` say nothing of the skill, the rating is
/// that of the rest.
proof fn lemma_rating_skips(entries: Seq<SkillType>, skill: CoreSkill, from: int)
    requires
        0 <= from <= entries.len(),
        forall|j: int| 0 <= j < from ==> rates(#[trigger] entries[j], skill) is None,
    ensures
        rating(entries, skill) == rating(entries.skip(from), skill),
    decreases from,
{
    if from == 0 {
        assert(entries.skip(0) =~= entries);
    } else {
        lemma_rating_skips(entries, skill, from - 1);
        let rest = entries.skip(from - 1);
        assert(rest[0] == entries[from - 1]);
        assert(rest.drop_first() =~= entries.skip(from));
    }
}

/// The rating is the value of the first entry for the skill.
pub proof fn lemma_rating_first(entries: Seq<SkillType>, skill: CoreSkill, at: int)
    requires
        is_first_entry(entries, skill, at),
    ensures
        Some(rating(entries, skill)) == rates(entries[at], skill),
{
    lemma_rating_skips(entries, skill, at);
    assert(entries.skip(at)[0] == entries[at]);
}

/// A list without an entry for the skill rates it at the default.
pub proof fn lemma_rating_default(entries: Seq<SkillType>, skill: CoreSkill)
    requires
        forall|j: int| 0 <= j < entries.len() ==> rates(#[trigger] entries[j], skill) is None,
    ensures
        rating(entries, skill) == DEFAULT_SKILL,
{
    lemma_rating_skips(entries, skill, entries.len() as int);
}

/// A player character as it is saved.
#[derive(Debug)]
pub struct SavePlayerCharacter {
    pub tag: String,
    pub name: PlayerName,
    pub profession: String,
    pub skills: Vec<SkillType>,
    pub vitality: u8,
    pub abilities: Vec<AbilityType>,
    pub complications: Vec<ComplicationType>,
    pub languages: Vec<LanguageType>,
    pub plot_hooks: Vec<PlotHook>,
    pub gear_kits: Vec<GearKit>,
}

impl SavePlayerCharacter {
    /// The value of one core skill in this record.
    pub fn get_skill(&self, skill: CoreSkill) -> (value: u8)
        ensures
            value == rating(self.skills@, skill),
    {
        let mut i: usize = 0;
        while i < self.skills.len()
            invariant
                i <= self.skills@.len(),
                forall|j: int| 0 <= j < i ==> rates(#[trigger] self.skills@[j], skill) is None,
            decreases self.skills@.len() - i,
        {
            let found = match (self.skills[i], skill) {
                (SkillType::Agility(value), CoreSkill::Agility) => Some(value),
                (SkillType::Alertness(value), CoreSkill::Alertness) => Some(value),
                (SkillType::Sneak(value), CoreSkill::Sneak) => Some(value),
                _ => None,
            };
            if let Some(value) = found {
                proof {
                    lemma_rating_first(self.skills@, skill, i as int);
                }
                return value;
            }
            i += 1;
        }
        proof {
            lemma_rating_default(self.skills@, skill);
        }
        DEFAULT_SKILL
    }

    pub fn get_agility(&self) -> (value: u8)
        ensures
            value == rating(self.skills@, CoreSkill::Agility),
    {
        self.get_skill(CoreSkill::Agility)
    }

    pub fn get_alertness(&self) -> (value: u8)
        ensures
            value == rating(self.skills@, CoreSkill::Alertness),
    {
        self.get_skill(CoreSkill::Alertness)
    }

    pub fn get_sneak(&self) -> (value: u8)
        ensures
            value == rating(self.skills@, CoreSkill::Sneak),
    {
        self.get_skill(CoreSkill::Sneak)
    }

    /// Rolls this character's initiative against its alertness.
    pub fn initiative(&self) -> (value: u8)
        ensures
            is_rolled_initiative(rating(self.skills@, CoreSkill::Alertness), value),
            value <= MAX_INITIATIVE,
    {
        roll_initiative(self.get_alertness())
    }
}

#[derive(Debug, Clone, Copy)]
pub enum DCTag {
    Mook,
    Lieutenant,
    Flips(u8),
    MultipleAttacks(u8),
}

#[derive(Debug, Clone, Copy)]
pub enum AttackTag {
    ShortRange,
    Reload(u8),
    Paralytic,
}

/// An attack of a director character. The rules here carry it along and do
/// not read it.
#[derive(Debug)]
pub struct Attack {
    pub name: String,
    pub skill: u8,
    pub damage: u8,
    pub tags: Vec<AttackTag>,
}

/// A director character as it is saved.
#[derive(Debug)]
pub struct SaveDirectorCharacter {
    pub tag: String,
    pub tags: Vec<DCTag>,
    pub initiative: u8,
    pub vitality: u8,
    pub attacks: Vec<Attack>,
}

/// All saved characters, players first.
#[derive(Debug)]
pub struct SaveCharacters {
    pub player_characters: Vec<SavePlayerCharacter>,
    pub director_characters: Vec<SaveDirectorCharacter>,
}

/// A saved character of either kind, as found in a `SaveCharacters`.
#[derive(Debug, Clone, Copy)]
#[allow(inconsistent_fields)]
pub enum CharacterType<'a> {
    PlayerCharacter { char: &'a SavePlayerCharacter },
    DirectorCharacter { char: &'a SaveDirectorCharacter },
}

impl SaveCharacters {
    /// `at` is the place of the first player character with this tag.
    pub open spec fn is_first_player(&self, tag: Seq<char>, at: int) -> bool {
        &&& 0 <= at < self.player_characters@.len()
        &&& self.player_characters@[at].tag@ == tag
        &&& forall|j: int| 0 <= j < at ==> (#[trigger] self.player_characters@[j]).tag@ != tag
    }

    /// `at` is the place of the first director character with this tag.
    pub open spec fn is_first_director(&self, tag: Seq<char>, at: int) -> bool {
        &&& 0 <= at < self.director_characters@.len()
        &&& self.director_characters@[at].tag@ == tag
        &&& forall|j: int| 0 <= j < at ==> (#[trigger] self.director_characters@[j]).tag@ != tag
    }

    pub open spec fn has_player(&self, tag: Seq<char>) -> bool {
        exists|j: int|
            0 <= j < self.player_characters@.len() && (#[trigger] self.player_characters@[j]).tag@
                == tag
    }

    pub open spec fn has_director(&self, tag: Seq<char>) -> bool {
        exists|j: int|
            0 <= j < self.director_characters@.len() && (
            #[trigger] self.director_characters@[j]).tag@ == tag
    }

    /// Finds the saved character with the given tag: the first player
    /// character that has it, else the first director character that has it.
    pub fn get_char_for_tag(&self, tag: String) -> (found: Option<CharacterType<'_>>)
        ensures
            match found {
                Some(CharacterType::PlayerCharacter { char }) => exists|at: int|
                    self.is_first_player(tag@, at) && *char == self.player_characters@[at],
                Some(CharacterType::DirectorCharacter { char }) => !self.has_player(tag@)
                    && exists|at: int|
                    self.is_first_director(tag@, at) && *char == self.director_characters@[at],
                None => !self.has_player(tag@) && !self.has_director(tag@),
            },
    {
        let mut i: usize = 0;
        while i < self.player_characters.len()
            invariant
                i <= self.player_characters@.len(),
                forall|j: int| 0 <= j < i ==> (#[trigger] self.player_characters@[j]).tag@ != tag@,
            decreases self.player_characters@.len() - i,
        {
            if self.player_characters[i].tag == tag {
                assert(self.is_first_player(tag@, i as int));
                return Some(CharacterType::PlayerCharacter { char: &self.player_characters[i] });
            }
            i += 1;
        }
        let mut k: usize = 0;
        while k < self.director_characters.len()
            invariant
                k <= self.director_characters@.len(),
                !self.has_player(tag@),
                forall|j: int|
                    0 <= j < k ==> (#[trigger] self.director_characters@[j]).tag@ != tag@,
            decreases self.director_characters@.len() - k,
        {
            if self.director_characters[k].tag == tag {
                assert(self.is_first_director(tag@, k as int));
                return Some(
                    CharacterType::DirectorCharacter { char: &self.director_characters[k] },
                );
            }
            k += 1;
        }
        None
    }
}

} // verus!
