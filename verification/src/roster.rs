//! The roster: every character of a session, in the order in which they
//! were added.

use crate::characters::{
    rating, CharacterName, CharacterSkills, CoreSkill, DirectorCharacter, IconName, Initiative,
    NoName, PlayerCharacter, PortraitAtlasId, SaveCharacters, SaveDirectorCharacter,
    SavePlayerCharacter, SceneActor, Skill, Vitality,
};
use crate::combat::InZone;
use crate::error::GameError;
use crate::seqs::{first_where, last_where, lemma_first_where_is, lemma_last_where_is, lemma_where_none};
use vstd::prelude::*;

verus! {

/// How a character is named: player characters and scene actors by their
/// own names, director characters by a generic one.
#[derive(Debug)]
pub enum Identity {
    Named(CharacterName),
    Generic(NoName),
}

impl Clone for Identity {
    fn clone(&self) -> (copy: Self)
        ensures
            copy == *self,
    {
        match self {
            Identity::Named(name) => Identity::Named(name.clone()),
            Identity::Generic(name) => Identity::Generic(name.clone()),
        }
    }
}

/// One character, with everything the rules know of it. What a kind of
/// character does not have is absent: a scene actor has no skills, and
/// nobody has an initiative or a zone before combat is set up.
#[derive(Debug)]
pub struct Character {
    pub identity: Identity,
    pub icon: Option<IconName>,
    pub portrait: PortraitAtlasId,
    pub skills: Option<CharacterSkills>,
    pub vitality: Option<Vitality>,
    pub initiative: Option<Initiative>,
    pub zone: Option<InZone>,
    pub in_scene: bool,
}

impl Character {
    /// The tag by which the character is looked up.
    pub open spec fn slug_text(&self) -> Seq<char> {
        match self.identity {
            Identity::Named(name) => name.slug@,
            Identity::Generic(name) => name.slug@,
        }
    }

    /// The name under which the character speaks.
    pub open spec fn alias_text(&self) -> Seq<char> {
        match self.identity {
            Identity::Named(name) => name.alias@,
            Identity::Generic(name) => name.alias@,
        }
    }

    /// The tag of the character's icon, if it has one.
    pub open spec fn icon_text(&self) -> Option<Seq<char>> {
        match self.icon {
            Some(icon) => Some(icon.slug@),
            None => None,
        }
    }

    /// The character that a player character's bundle describes.
    pub open spec fn of_player(pc: PlayerCharacter) -> Character {
        Character {
            identity: Identity::Named(pc.name),
            icon: Some(pc.icon),
            portrait: pc.portrait,
            skills: Some(pc.skills),
            vitality: Some(pc.vitality),
            initiative: None,
            zone: None,
            in_scene: false,
        }
    }

    /// The character that a director character's bundle describes.
    pub open spec fn of_director(dc: DirectorCharacter) -> Character {
        Character {
            identity: Identity::Generic(dc.name),
            icon: Some(dc.icon),
            portrait: dc.portrait,
            skills: None,
            vitality: Some(dc.vitality),
            initiative: Some(dc.initiative),
            zone: None,
            in_scene: false,
        }
    }

    /// The character that a scene actor's bundle describes.
    pub open spec fn of_actor(actor: SceneActor) -> Character {
        Character {
            identity: Identity::Named(actor.name),
            icon: None,
            portrait: actor.portrait,
            skills: None,
            vitality: None,
            initiative: None,
            zone: None,
            in_scene: false,
        }
    }

    pub fn from_player(pc: PlayerCharacter) -> (character: Self)
        ensures
            character == Character::of_player(pc),
    {
        Character {
            identity: Identity::Named(pc.name),
            icon: Some(pc.icon),
            portrait: pc.portrait,
            skills: Some(pc.skills),
            vitality: Some(pc.vitality),
            initiative: None,
            zone: None,
            in_scene: false,
        }
    }

    pub fn from_director(dc: DirectorCharacter) -> (character: Self)
        ensures
            character == Character::of_director(dc),
    {
        Character {
            identity: Identity::Generic(dc.name),
            icon: Some(dc.icon),
            portrait: dc.portrait,
            skills: None,
            vitality: Some(dc.vitality),
            initiative: Some(dc.initiative),
            zone: None,
            in_scene: false,
        }
    }

    pub fn from_actor(actor: SceneActor) -> (character: Self)
        ensures
            character == Character::of_actor(actor),
    {
        Character {
            identity: Identity::Named(actor.name),
            icon: None,
            portrait: actor.portrait,
            skills: None,
            vitality: None,
            initiative: None,
            zone: None,
            in_scene: false,
        }
    }

    pub fn slug(&self) -> (slug: &String)
        ensures
            slug@ == self.slug_text(),
    {
        match &self.identity {
            Identity::Named(name) => &name.slug,
            Identity::Generic(name) => &name.slug,
        }
    }

    pub fn alias(&self) -> (alias: &String)
        ensures
            alias@ == self.alias_text(),
    {
        match &self.identity {
            Identity::Named(name) => &name.alias,
            Identity::Generic(name) => &name.alias,
        }
    }
}

impl Clone for Character {
    fn clone(&self) -> (copy: Self)
        ensures
            copy == *self,
    {
        Character {
            identity: self.identity.clone(),
            icon: match &self.icon {
                Some(icon) => Some(icon.clone()),
                None => None,
            },
            portrait: self.portrait,
            skills: self.skills,
            vitality: self.vitality,
            initiative: self.initiative,
            zone: match &self.zone {
                Some(zone) => Some(zone.clone()),
                None => None,
            },
            in_scene: self.in_scene,
        }
    }
}

/// Whether a list of characters holds one with the given tag.
pub open spec fn has_tag(characters: Seq<Character>, tag: Seq<char>) -> bool {
    exists|j: int| 0 <= j < characters.len() && (#[trigger] characters[j]).slug_text() == tag
}

/// `at` is the place of the first character with the given tag.
pub open spec fn is_first_with_tag(characters: Seq<Character>, tag: Seq<char>, at: int) -> bool {
    &&& 0 <= at < characters.len()
    &&& characters[at].slug_text() == tag
    &&& forall|j: int| 0 <= j < at ==> (#[trigger] characters[j]).slug_text() != tag
}

/// The test whether a character has the given tag.
pub open spec fn carries_tag(tag: Seq<char>) -> spec_fn(Character) -> bool {
    |character: Character| character.slug_text() == tag
}

/// The place of the first character with the given tag, if any has it.
pub open spec fn first_with_tag(characters: Seq<Character>, tag: Seq<char>) -> Option<int> {
    first_where(characters, carries_tag(tag))
}

/// Whether a portrait file, named by its stem, is the one for a tag.
pub open spec fn stem_is(stem: Option<String>, tag: Seq<char>) -> bool {
    match stem {
        Some(text) => text@ == tag,
        None => false,
    }
}

/// The place in the atlas of the portrait for a tag: that of the last file
/// whose stem is the tag. A file that is no picture has no stem.
pub open spec fn portrait_for(stems: Seq<Option<String>>, tag: Seq<char>) -> Option<int> {
    last_where(stems, stem_test(tag))
}

/// The test whether a portrait file is the one for a tag.
pub open spec fn stem_test(tag: Seq<char>) -> spec_fn(Option<String>) -> bool {
    |stem: Option<String>| stem_is(stem, tag)
}

/// The character that a saved player character describes, with its
/// portrait at the given place in the atlas.
pub open spec fn saved_player(pc: SavePlayerCharacter, portrait: usize) -> Character {
    Character {
        identity: Identity::Named(
            CharacterName {
                slug: pc.tag,
                alias: pc.name.alias,
                first: pc.name.first,
                last: pc.name.last,
            },
        ),
        icon: Some(IconName { slug: pc.tag }),
        portrait: PortraitAtlasId { index: portrait },
        skills: Some(
            CharacterSkills {
                agility: Skill { value: rating(pc.skills@, CoreSkill::Agility) },
                alertness: Skill { value: rating(pc.skills@, CoreSkill::Alertness) },
                sneak: Skill { value: rating(pc.skills@, CoreSkill::Sneak) },
            },
        ),
        vitality: Some(Vitality { value: pc.vitality }),
        initiative: None,
        zone: None,
        in_scene: false,
    }
}

/// The character that a saved director character describes. Its tag serves
/// for all of its names.
pub open spec fn saved_director(dc: SaveDirectorCharacter) -> Character {
    Character {
        identity: Identity::Generic(NoName { slug: dc.tag, alias: dc.tag, generic: dc.tag }),
        icon: Some(IconName { slug: dc.tag }),
        portrait: PortraitAtlasId { index: 0 },
        skills: None,
        vitality: Some(Vitality { value: dc.vitality }),
        initiative: Some(Initiative { value: dc.initiative }),
        zone: None,
        in_scene: false,
    }
}

/// The saved players that have a portrait, as characters, in their saved
/// order.
pub open spec fn portrayed(players: Seq<SavePlayerCharacter>, stems: Seq<Option<String>>) -> Seq<
    Character,
>
    decreases players.len(),
{
    if players.len() == 0 {
        Seq::empty()
    } else {
        let before = portrayed(players.drop_last(), stems);
        match portrait_for(stems, players.last().tag@) {
            Some(at) => before.push(saved_player(players.last(), at as usize)),
            None => before,
        }
    }
}

/// A character after the portraits were assigned: where a file's stem is
/// the character's icon, the last such file gives the portrait.
pub open spec fn with_portrait(character: Character, stems: Seq<Option<String>>) -> Character {
    match character.icon {
        Some(icon) => match portrait_for(stems, icon.slug@) {
            Some(at) => Character { portrait: PortraitAtlasId { index: at as usize }, ..character },
            None => character,
        },
        None => character,
    }
}

/// A character after it was put into the zone with the given tag. The
/// membership is not resolved yet.
pub open spec fn placed(character: Character, zone_tag: Seq<char>, now: Character) -> bool {
    &&& now.zone matches Some(zone)
    &&& zone.name@ == zone_tag
    &&& zone.area is None
    &&& now == Character { zone: now.zone, ..character }
}

/// A player character as the standard cast defines one.
pub open spec fn is_cast_player(
    character: Character,
    slug: Seq<char>,
    alias: Seq<char>,
    first: Seq<char>,
    last: Seq<char>,
    skills: CharacterSkills,
    vitality: u8,
) -> bool {
    &&& character.identity matches Identity::Named(name)
    &&& name.slug@ == slug
    &&& name.alias@ == alias
    &&& name.first@ == first
    &&& name.last@ == last
    &&& character.icon_text() == Some(slug)
    &&& character.portrait.index == 0
    &&& character.skills == Some(skills)
    &&& character.vitality == Some(Vitality { value: vitality })
    &&& character.initiative is None
    &&& character.zone is None
    &&& !character.in_scene
}

/// A scene actor as the standard cast defines one: it has names only.
pub open spec fn is_cast_actor(character: Character, slug: Seq<char>, alias: Seq<char>) -> bool {
    &&& character.identity matches Identity::Named(name)
    &&& name.slug@ == slug
    &&& name.alias@ == alias
    &&& name.first@.len() == 0
    &&& name.last@.len() == 0
    &&& character.icon is None
    &&& character.portrait.index == 0
    &&& character.skills is None
    &&& character.vitality is None
    &&& character.initiative is None
    &&& character.zone is None
    &&& !character.in_scene
}

/// A director character as the standard cast defines one.
pub open spec fn is_cast_director(
    character: Character,
    slug: Seq<char>,
    alias: Seq<char>,
    generic: Seq<char>,
    icon: Seq<char>,
    initiative: u8,
    vitality: u8,
) -> bool {
    &&& character.identity matches Identity::Generic(name)
    &&& name.slug@ == slug
    &&& name.alias@ == alias
    &&& name.generic@ == generic
    &&& character.icon_text() == Some(icon)
    &&& character.portrait.index == 0
    &&& character.skills is None
    &&& character.vitality == Some(Vitality { value: vitality })
    &&& character.initiative == Some(Initiative { value: initiative })
    &&& character.zone is None
    &&& !character.in_scene
}

/// Three skill values as a skill set.
pub open spec fn skill_set(agility: u8, alertness: u8, sneak: u8) -> CharacterSkills {
    CharacterSkills {
        agility: Skill { value: agility },
        alertness: Skill { value: alertness },
        sneak: Skill { value: sneak },
    }
}

/// The characters of a session. Their order is the order in which they were
/// added, and a character's place in it is what the other parts of the
/// rules keep to refer to the character.
#[derive(Debug)]
pub struct Roster {
    pub characters: Vec<Character>,
}

impl View for Roster {
    type V = Seq<Character>;

    open spec fn view(&self) -> Seq<Character> {
        self.characters@
    }
}

/// Where in a list of file stems the portrait for a tag is.
pub fn find_portrait(stems: &Vec<Option<String>>, tag: &String) -> (found: Option<usize>)
    ensures
        match found {
            Some(at) => portrait_for(stems@, tag@) == Some(at as int),
            None => portrait_for(stems@, tag@) is None,
        },
{
    let ghost wanted = stem_test(tag@);
    let mut i: usize = stems.len();
    while i > 0
        invariant
            i <= stems@.len(),
            wanted == stem_test(tag@),
            forall|j: int| i <= j < stems@.len() ==> !wanted(#[trigger] stems@[j]),
        decreases i,
    {
        i -= 1;
        let hit = match &stems[i] {
            Some(text) => *text == *tag,
            None => false,
        };
        if hit {
            proof {
                lemma_last_where_is(stems@, wanted, i as int);
            }
            return Some(i);
        }
    }
    proof {
        lemma_where_none(stems@, wanted);
    }
    None
}

fn character_of_saved_player(pc: &SavePlayerCharacter, portrait: usize) -> (character: Character)
    ensures
        character == saved_player(*pc, portrait),
{
    Character {
        identity: Identity::Named(
            CharacterName {
                slug: pc.tag.clone(),
                alias: pc.name.alias.clone(),
                first: pc.name.first.clone(),
                last: pc.name.last.clone(),
            },
        ),
        icon: Some(IconName { slug: pc.tag.clone() }),
        portrait: PortraitAtlasId { index: portrait },
        skills: Some(CharacterSkills::new(pc.get_agility(), pc.get_alertness(), pc.get_sneak())),
        vitality: Some(Vitality { value: pc.vitality }),
        initiative: None,
        zone: None,
        in_scene: false,
    }
}

fn character_of_saved_director(dc: &SaveDirectorCharacter) -> (character: Character)
    ensures
        character == saved_director(*dc),
{
    Character {
        identity: Identity::Generic(
            NoName { slug: dc.tag.clone(), alias: dc.tag.clone(), generic: dc.tag.clone() },
        ),
        icon: Some(IconName { slug: dc.tag.clone() }),
        portrait: PortraitAtlasId { index: 0 },
        skills: None,
        vitality: Some(Vitality { value: dc.vitality }),
        initiative: Some(Initiative { value: dc.initiative }),
        zone: None,
        in_scene: false,
    }
}

fn cast_player(
    slug: &str,
    alias: &str,
    first: &str,
    last: &str,
    agility: u8,
    alertness: u8,
    sneak: u8,
    vitality: u8,
) -> (character: Character)
    ensures
        is_cast_player(
            character,
            slug@,
            alias@,
            first@,
            last@,
            skill_set(agility, alertness, sneak),
            vitality,
        ),
{
    Character::from_player(
        PlayerCharacter {
            name: CharacterName::new(slug, alias, first, last),
            icon: IconName::new(slug),
            portrait: PortraitAtlasId::default(),
            skills: CharacterSkills::new(agility, alertness, sneak),
            vitality: Vitality::new(vitality),
        },
    )
}

fn cast_actor(slug: &str, alias: &str) -> (character: Character)
    ensures
        is_cast_actor(character, slug@, alias@),
{
    proof {
        reveal_strlit("");
    }
    Character::from_actor(
        SceneActor {
            name: CharacterName::new(slug, alias, "", ""),
            portrait: PortraitAtlasId::default(),
        },
    )
}

fn cast_director(
    slug: &str,
    alias: &str,
    generic: &str,
    icon: &str,
    initiative: u8,
    vitality: u8,
) -> (character: Character)
    ensures
        is_cast_director(character, slug@, alias@, generic@, icon@, initiative, vitality),
{
    Character::from_director(
        DirectorCharacter {
            name: NoName::new(slug, alias, generic),
            icon: IconName::new(icon),
            portrait: PortraitAtlasId::default(),
            initiative: Initiative::new(initiative),
            vitality: Vitality::new(vitality),
        },
    )
}

impl Roster {
    pub fn new() -> (roster: Self)
        ensures
            roster@ == Seq::<Character>::empty(),
    {
        Roster { characters: Vec::new() }
    }

    /// The standard cast: six player characters, the narrator, the silent
    /// stand-in, and two guards.
    pub fn standard() -> (roster: Self)
        ensures
            roster@.len() == 10,
            is_cast_player(
                roster@[0],
                "elektra"@,
                "Electra"@,
                "Elektra"@,
                "Ambrosia"@,
                skill_set(15, 65, 15),
                5,
            ),
            is_cast_player(
                roster@[1],
                "yurika"@,
                "Yurika"@,
                "Yurika"@,
                "Mishida"@,
                skill_set(15, 65, 15),
                5,
            ),
            is_cast_player(
                roster@[2],
                "paul"@,
                "Paul"@,
                "Paul"@,
                "Marchand"@,
                skill_set(65, 45, 65),
                6,
            ),
            is_cast_player(
                roster@[3],
                "harry"@,
                "Harry"@,
                "Harold"@,
                "Fitzroy"@,
                skill_set(65, 45, 15),
                6,
            ),
            is_cast_player(
                roster@[4],
                "frida"@,
                "Frida"@,
                "Anni-Frid"@,
                "Bäckströn"@,
                skill_set(45, 65, 15),
                6,
            ),
            is_cast_player(
                roster@[5],
                "eloise"@,
                "Éloïse"@,
                "Éloïse"@,
                "Giraud"@,
                skill_set(15, 15, 15),
                5,
            ),
            is_cast_actor(roster@[6], "narrator"@, "Narrator"@),
            is_cast_actor(roster@[7], "empty"@, ""@),
            is_cast_director(
                roster@[8],
                "guard_1"@,
                "Guard 1"@,
                "octopus_guard"@,
                "guard"@,
                2,
                2,
            ),
            is_cast_director(
                roster@[9],
                "guard_2"@,
                "Guard 2"@,
                "octopus_guard"@,
                "guard"@,
                2,
                2,
            ),
    {
        let mut roster = Roster::new();
        roster.add(cast_player("elektra", "Electra", "Elektra", "Ambrosia", 15, 65, 15, 5));
        roster.add(cast_player("yurika", "Yurika", "Yurika", "Mishida", 15, 65, 15, 5));
        roster.add(cast_player("paul", "Paul", "Paul", "Marchand", 65, 45, 65, 6));
        roster.add(cast_player("harry", "Harry", "Harold", "Fitzroy", 65, 45, 15, 6));
        roster.add(cast_player("frida", "Frida", "Anni-Frid", "Bäckströn", 45, 65, 15, 6));
        roster.add(cast_player("eloise", "Éloïse", "Éloïse", "Giraud", 15, 15, 15, 5));
        roster.add(cast_actor("narrator", "Narrator"));
        roster.add(cast_actor("empty", ""));
        roster.add(cast_director("guard_1", "Guard 1", "octopus_guard", "guard", 2, 2));
        roster.add(cast_director("guard_2", "Guard 2", "octopus_guard", "guard", 2, 2));
        roster
    }

    pub fn len(&self) -> (len: usize)
        ensures
            len == self@.len(),
    {
        self.characters.len()
    }

    /// All characters, in the order in which they were added.
    pub fn all(&self) -> (characters: &Vec<Character>)
        ensures
            characters@ == self@,
    {
        &self.characters
    }

    /// The character at a place, if the roster has that many.
    pub fn get(&self, at: usize) -> (character: Option<&Character>)
        ensures
            at < self@.len() ==> character == Some(&self@[at as int]),
            at >= self@.len() ==> character is None,
    {
        if at < self.characters.len() {
            Some(&self.characters[at])
        } else {
            None
        }
    }

    /// Adds a character at the end and returns its place.
    pub fn add(&mut self, character: Character) -> (at: usize)
        ensures
            final(self)@ == old(self)@.push(character),
            at == old(self)@.len(),
    {
        let at = self.characters.len();
        self.characters.push(character);
        at
    }

    /// The place of the first character with the given tag.
    pub fn find(&self, tag: &str) -> (found: Result<usize, GameError>)
        ensures
            match found {
                Ok(at) => is_first_with_tag(self@, tag@, at as int) && first_with_tag(self@, tag@)
                    == Some(at as int),
                Err(error) => error == GameError::NotFound && !has_tag(self@, tag@)
                    && first_with_tag(self@, tag@) is None,
            },
    {
        let wanted = tag.to_owned();
        let ghost carries = carries_tag(tag@);
        let mut i: usize = 0;
        while i < self.characters.len()
            invariant
                i <= self@.len(),
                wanted@ == tag@,
                carries == carries_tag(tag@),
                forall|j: int| 0 <= j < i ==> !carries(#[trigger] self@[j]),
            decreases self@.len() - i,
        {
            if *self.characters[i].slug() == wanted {
                proof {
                    lemma_first_where_is(self@, carries, i as int);
                }
                return Ok(i);
            }
            i += 1;
        }
        proof {
            lemma_where_none(self@, carries);
        }
        Err(GameError::NotFound)
    }

    /// The roster of a save file: every saved player character, then every
    /// saved director character, each in its saved order and with the first
    /// portrait of the atlas.
    pub fn load(save: &SaveCharacters) -> (roster: Self)
        ensures
            roster@.len() == save.player_characters@.len() + save.director_characters@.len(),
            forall|i: int|
                0 <= i < save.player_characters@.len() ==> #[trigger] roster@[i] == saved_player(
                    save.player_characters@[i],
                    0,
                ),
            forall|i: int|
                0 <= i < save.director_characters@.len() ==> #[trigger] roster@[
                    save.player_characters@.len() + i
                ] == saved_director(save.director_characters@[i]),
    {
        let mut roster = Roster::new();
        let players = save.player_characters.len();
        let mut i: usize = 0;
        while i < players
            invariant
                i <= players,
                players == save.player_characters@.len(),
                roster@.len() == i,
                forall|j: int|
                    0 <= j < i ==> #[trigger] roster@[j] == saved_player(
                        save.player_characters@[j],
                        0,
                    ),
            decreases players - i,
        {
            let character = character_of_saved_player(&save.player_characters[i], 0);
            roster.add(character);
            i += 1;
        }
        let mut k: usize = 0;
        while k < save.director_characters.len()
            invariant
                k <= save.director_characters@.len(),
                players == save.player_characters@.len(),
                roster@.len() == players + k,
                forall|j: int|
                    0 <= j < players ==> #[trigger] roster@[j] == saved_player(
                        save.player_characters@[j],
                        0,
                    ),
                forall|j: int|
                    0 <= j < k ==> #[trigger] roster@[players + j] == saved_director(
                        save.director_characters@[j],
                    ),
            decreases save.director_characters@.len() - k,
        {
            let character = character_of_saved_director(&save.director_characters[k]);
            roster.add(character);
            k += 1;
        }
        roster
    }

    /// Adds the saved player characters that have a portrait, in their saved
    /// order. A saved player without a portrait is left out.
    pub fn enlist_saved(&mut self, save: &SaveCharacters, stems: &Vec<Option<String>>)
        ensures
            final(self)@ == old(self)@ + portrayed(save.player_characters@, stems@),
    {
        let ghost players = save.player_characters@;
        let mut i: usize = 0;
        assert(players.take(0) =~= Seq::<SavePlayerCharacter>::empty());
        while i < save.player_characters.len()
            invariant
                i <= players.len(),
                players == save.player_characters@,
                self@ == old(self)@ + portrayed(players.take(i as int), stems@),
            decreases players.len() - i,
        {
            let pc = &save.player_characters[i];
            proof {
                let upto = players.take(i + 1);
                assert(upto.drop_last() =~= players.take(i as int));
                assert(upto.last() == players[i as int]);
            }
            match find_portrait(stems, &pc.tag) {
                Some(at) => {
                    let character = character_of_saved_player(pc, at);
                    self.characters.push(character);
                },
                None => {},
            }
            i += 1;
        }
        assert(players.take(players.len() as int) =~= players);
    }

    /// Gives each character the portrait that belongs to its icon, where the
    /// atlas has one. `stems` are the stems of the atlas's files, in the
    /// order of the atlas.
    pub fn assign_portraits(&mut self, stems: &Vec<Option<String>>)
        ensures
            final(self)@.len() == old(self)@.len(),
            forall|i: int|
                0 <= i < old(self)@.len() ==> #[trigger] final(self)@[i] == with_portrait(
                    old(self)@[i],
                    stems@,
                ),
    {
        let mut i: usize = 0;
        while i < self.characters.len()
            invariant
                i <= self@.len(),
                self@.len() == old(self)@.len(),
                forall|j: int|
                    0 <= j < i ==> #[trigger] self@[j] == with_portrait(old(self)@[j], stems@),
                forall|j: int| i <= j < self@.len() ==> #[trigger] self@[j] == old(self)@[j],
            decreases self@.len() - i,
        {
            let found = match &self.characters[i].icon {
                Some(icon) => find_portrait(stems, &icon.slug),
                None => None,
            };
            if let Some(at) = found {
                self.characters[i].portrait = PortraitAtlasId { index: at };
            }
            i += 1;
        }
    }

    /// Puts a character into the zone with the given tag. The membership
    /// stays unresolved until it is held against a map. A place that the
    /// roster does not have changes nothing.
    pub fn place(&mut self, who: usize, zone_tag: &str)
        ensures
            final(self)@.len() == old(self)@.len(),
            forall|i: int|
                0 <= i < old(self)@.len() && i != who ==> #[trigger] final(self)@[i] == old(
                    self,
                )@[i],
            who < old(self)@.len() ==> placed(
                old(self)@[who as int],
                zone_tag@,
                final(self)@[who as int],
            ),
    {
        if who < self.characters.len() {
            self.characters[who].zone = Some(InZone::new(zone_tag));
        }
    }
}

} // verus!
