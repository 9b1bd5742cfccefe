//! Interactive fiction: a dialog as a graph of nodes, and the engine that
//! walks it, one node at a time, on the player's intents.

use crate::characters::CharacterSkills;
use crate::error::GameError;
use crate::initiative::roll_many;
use crate::roster::{carries_tag, Character, Roster};
use crate::seqs::{
    first_where, last_where, lemma_first_where, lemma_first_where_is, lemma_last_where_is,
    lemma_where_none,
};
use crate::text::{debug_list, debug_names, decimal, decimal_text};
use vstd::prelude::*;

verus! {

/// What a node of a dialog is.
#[derive(Debug, Clone, Copy, PartialEq, Eq, Hash, Structural)]
pub enum NodeKind {
    /// Where the dialog begins. It shows nothing.
    Start,
    /// Somebody speaks.
    Talk,
    /// Actors enter the scene.
    Join,
    /// Actors leave the scene.
    Leave,
    /// The player chooses how to go on.
    Choice,
}

/// One option of a choice: its label, the skill that is checked when it is
/// taken, if any, and the node that it leads to.
#[derive(Debug)]
pub struct Choice {
    pub text: String,
    pub check: Option<String>,
    pub next: usize,
}

/// One node of a dialog.
#[derive(Debug)]
pub struct DialogNode {
    pub id: usize,
    pub kind: NodeKind,
    pub text: String,
    pub actors: Vec<String>,
    pub choices: Vec<Choice>,
    pub next: Option<usize>,
}

/// A dialog: its nodes, each known by its id, and the id of the node at
/// which it starts.
#[derive(Debug)]
pub struct DialogGraph {
    pub nodes: Vec<DialogNode>,
    pub start: usize,
}

/// The test whether a node has the given id.
pub open spec fn has_id(id: usize) -> spec_fn(DialogNode) -> bool {
    |node: DialogNode| node.id == id
}

/// The place of the node with the given id: that of the first node that
/// has it.
pub open spec fn node_at(nodes: Seq<DialogNode>, id: usize) -> Option<int> {
    first_where(nodes, has_id(id))
}

/// Whether some node has the given id.
pub open spec fn holds_id(nodes: Seq<DialogNode>, id: usize) -> bool {
    exists|i: int| 0 <= i < nodes.len() && (#[trigger] nodes[i]).id == id
}

/// Whether everything that a node refers to is there: the node that
/// follows it, and the node that each of its options leads to.
pub open spec fn refers_within(nodes: Seq<DialogNode>, node: DialogNode) -> bool {
    &&& node.next matches Some(next) ==> holds_id(nodes, next)
    &&& forall|c: int|
        0 <= c < node.choices@.len() ==> holds_id(nodes, (#[trigger] node.choices@[c]).next)
}

/// Whether a dialog is sound: its start is one of its nodes, and no node
/// refers to a node that is not there.
pub open spec fn is_sound(graph: DialogGraph) -> bool {
    &&& holds_id(graph.nodes@, graph.start)
    &&& forall|i: int|
        0 <= i < graph.nodes@.len() ==> refers_within(graph.nodes@, #[trigger] graph.nodes@[i])
}

/// An id that some node has is found, and found at a node that has it.
pub proof fn lemma_node_at(nodes: Seq<DialogNode>, id: usize)
    ensures
        holds_id(nodes, id) <==> node_at(nodes, id) is Some,
        node_at(nodes, id) matches Some(at) ==> 0 <= at < nodes.len() && nodes[at].id == id,
{
    lemma_first_where(nodes, has_id(id));
    if holds_id(nodes, id) {
        let i = choose|i: int| 0 <= i < nodes.len() && (#[trigger] nodes[i]).id == id;
        assert(has_id(id)(nodes[i]));
    }
}

impl DialogGraph {
    /// The place of the node with the given id.
    pub fn find(&self, id: usize) -> (found: Option<usize>)
        ensures
            match found {
                Some(at) => node_at(self.nodes@, id) == Some(at as int) && at < self.nodes@.len()
                    && self.nodes@[at as int].id == id,
                None => node_at(self.nodes@, id) is None && !holds_id(self.nodes@, id),
            },
    {
        let ghost wanted = has_id(id);
        let mut i: usize = 0;
        while i < self.nodes.len()
            invariant
                i <= self.nodes@.len(),
                wanted == has_id(id),
                forall|j: int| 0 <= j < i ==> !wanted(#[trigger] self.nodes@[j]),
            decreases self.nodes@.len() - i,
        {
            if self.nodes[i].id == id {
                proof {
                    lemma_first_where_is(self.nodes@, wanted, i as int);
                }
                return Some(i);
            }
            i += 1;
        }
        proof {
            lemma_where_none(self.nodes@, wanted);
            lemma_node_at(self.nodes@, id);
        }
        None
    }

    fn node_refers_within(&self, at: usize) -> (sound: bool)
        requires
            at < self.nodes@.len(),
        ensures
            sound == refers_within(self.nodes@, self.nodes@[at as int]),
    {
        let node = &self.nodes[at];
        if let Some(next) = node.next {
            if self.find(next).is_none() {
                return false;
            }
        }
        let mut c: usize = 0;
        while c < node.choices.len()
            invariant
                c <= node.choices@.len(),
                at < self.nodes@.len(),
                node == &self.nodes@[at as int],
                forall|k: int|
                    0 <= k < c ==> holds_id(self.nodes@, (#[trigger] node.choices@[k]).next),
            decreases node.choices@.len() - c,
        {
            if self.find(node.choices[c].next).is_none() {
                return false;
            }
            c += 1;
        }
        true
    }

    /// Checks that the dialog is sound. A dialog that refers to a node
    /// that it does not hold is a configuration error, and so is one whose
    /// start is not among its nodes.
    pub fn validate(&self) -> (checked: Result<(), GameError>)
        ensures
            checked is Ok <==> is_sound(*self),
            checked is Err ==> checked == Err::<(), GameError>(GameError::ConfigurationError),
    {
        if self.find(self.start).is_none() {
            return Err(GameError::ConfigurationError);
        }
        let mut i: usize = 0;
        while i < self.nodes.len()
            invariant
                i <= self.nodes@.len(),
                holds_id(self.nodes@, self.start),
                forall|j: int|
                    0 <= j < i ==> refers_within(self.nodes@, #[trigger] self.nodes@[j]),
            decreases self.nodes@.len() - i,
        {
            if !self.node_refers_within(i) {
                return Err(GameError::ConfigurationError);
            }
            i += 1;
        }
        Ok(())
    }
}

/// Whether a list of actors names the given one.
pub open spec fn in_cast(actors: Seq<String>, name: Seq<char>) -> bool {
    exists|k: int| 0 <= k < actors.len() && (#[trigger] actors[k])@ == name
}

/// Whether a list of actors names the observer: the actor who is never
/// shown, and whose coming and going move the dialog on by themselves.
pub open spec fn has_observer(actors: Seq<String>) -> bool {
    in_cast(actors, "observer"@)
}

/// A character after a node was entered: a join puts the actors it names
/// into the scene, a leave takes them out of it, and nothing else changes.
pub open spec fn in_scene_after(character: Character, node: DialogNode) -> Character {
    if in_cast(node.actors@, character.slug_text()) {
        match node.kind {
            NodeKind::Join => Character { in_scene: true, ..character },
            NodeKind::Leave => Character { in_scene: false, ..character },
            _ => character,
        }
    } else {
        character
    }
}

/// The place of the last character with the given tag, if any has it.
pub open spec fn last_with_tag(characters: Seq<Character>, tag: Seq<char>) -> Option<int> {
    last_where(characters, carries_tag(tag))
}

/// Who speaks at a node: the first actor of the node, under the alias that
/// the roster has for it, and the narrator where the node has no actor. An
/// actor whom the roster does not know speaks under no name.
pub open spec fn speaker_of(node: DialogNode, characters: Seq<Character>) -> Seq<char> {
    if node.actors@.len() == 0 {
        "Narrator"@
    } else {
        match last_with_tag(characters, node.actors@[0]@) {
            Some(at) => characters[at].alias_text(),
            None => Seq::empty(),
        }
    }
}

/// The tag of the character whose portrait goes with a node: nobody's
/// while actors come and go, else the speaker's.
pub open spec fn portrait_tag(node: DialogNode) -> Seq<char> {
    match node.kind {
        NodeKind::Start | NodeKind::Join | NodeKind::Leave => "empty"@,
        _ => if node.actors@.len() == 0 {
            "narrator"@
        } else {
            node.actors@[0]@
        },
    }
}

/// The place in the atlas of the portrait that goes with a node: the first
/// of the atlas where the roster does not know the character.
pub open spec fn portrait_of(node: DialogNode, characters: Seq<Character>) -> usize {
    match last_with_tag(characters, portrait_tag(node)) {
        Some(at) => characters[at].portrait.index,
        None => 0,
    }
}

/// The line for somebody who speaks.
pub open spec fn talk_line(speaker: Seq<char>, text: Seq<char>) -> Seq<char> {
    speaker + ": "@ + text
}

/// The line for actors who enter, given their names as one text.
pub open spec fn join_line(names: Seq<char>) -> Seq<char> {
    "--- "@ + names + " enters the scene."@
}

/// The line for actors who leave, given their names as one text.
pub open spec fn leave_line(names: Seq<char>) -> Seq<char> {
    "--- "@ + names + " exit the scene."@
}

/// The line of one option of a choice. Options are numbered from 1.
pub open spec fn option_line(number: nat, text: Seq<char>) -> Seq<char> {
    "\n"@ + decimal(number) + ": "@ + text
}

/// The prompt of a choice: a heading, then the options, one to a line.
pub open spec fn choice_prompt(choices: Seq<Choice>) -> Seq<char>
    decreases choices.len(),
{
    if choices.len() == 0 {
        "Choice:"@
    } else {
        choice_prompt(choices.drop_last()) + option_line(choices.len(), choices.last().text@)
    }
}

/// What a node shows, if it shows anything. The start shows nothing, and
/// neither does a join or a leave that names the observer.
pub open spec fn line_of(node: DialogNode, characters: Seq<Character>) -> Option<Seq<char>> {
    match node.kind {
        NodeKind::Start => None,
        NodeKind::Talk => Some(talk_line(speaker_of(node, characters), node.text@)),
        NodeKind::Join => if has_observer(node.actors@) {
            None
        } else {
            Some(join_line(debug_list(node.actors.deep_view())))
        },
        NodeKind::Leave => if has_observer(node.actors@) {
            None
        } else {
            Some(leave_line(debug_list(node.actors.deep_view())))
        },
        NodeKind::Choice => Some(choice_prompt(node.choices@)),
    }
}

/// Whether an optional text is the given one.
pub open spec fn shows(line: Option<String>, wanted: Option<Seq<char>>) -> bool {
    match (line, wanted) {
        (Some(text), Some(chars)) => text@ == chars,
        (None, None) => true,
        _ => false,
    }
}

/// Writes the line for somebody who speaks.
pub fn talk_text(speaker: &str, text: &str) -> (line: String)
    ensures
        line@ == talk_line(speaker@, text@),
{
    let mut line = speaker.to_owned();
    line.append(": ");
    line.append(text);
    line
}

/// Writes the line for actors who enter or leave, given their names as one
/// text.
pub fn scene_text(names: &str, enter: bool) -> (line: String)
    ensures
        line@ == if enter {
            join_line(names@)
        } else {
            leave_line(names@)
        },
{
    let mut line = "--- ".to_owned();
    line.append(names);
    if enter {
        line.append(" enters the scene.");
    } else {
        line.append(" exit the scene.");
    }
    line
}

/// Writes the prompt of a choice.
pub fn choice_text(choices: &Vec<Choice>) -> (prompt: String)
    ensures
        prompt@ == choice_prompt(choices@),
{
    let mut prompt = "Choice:".to_owned();
    let mut i: usize = 0;
    assert(choices@.take(0) =~= Seq::<Choice>::empty());
    while i < choices.len()
        invariant
            i <= choices@.len(),
            prompt@ == choice_prompt(choices@.take(i as int)),
        decreases choices@.len() - i,
    {
        proof {
            let longer = choices@.take(i + 1);
            assert(longer.drop_last() =~= choices@.take(i as int));
            assert(longer.last() == choices@[i as int]);
        }
        let ghost before = prompt@;
        let number = decimal_text(i + 1);
        prompt.append("\n");
        prompt.append(number.as_str());
        prompt.append(": ");
        prompt.append(choices[i].text.as_str());
        assert(prompt@ =~= before + option_line((i + 1) as nat, choices@[i as int].text@));
        i += 1;
    }
    assert(choices@.take(choices@.len() as int) =~= choices@);
    prompt
}

/// Whether a list of actors names the given one.
pub fn names_actor(actors: &Vec<String>, name: &String) -> (named: bool)
    ensures
        named == in_cast(actors@, name@),
{
    let mut k: usize = 0;
    while k < actors.len()
        invariant
            k <= actors@.len(),
            forall|j: int| 0 <= j < k ==> (#[trigger] actors@[j])@ != name@,
        decreases actors@.len() - k,
    {
        if actors[k] == *name {
            return true;
        }
        k += 1;
    }
    false
}

fn find_last(roster: &Roster, tag: &String) -> (found: Option<usize>)
    ensures
        match found {
            Some(at) => last_with_tag(roster@, tag@) == Some(at as int) && at < roster@.len(),
            None => last_with_tag(roster@, tag@) is None,
        },
{
    let ghost carries = carries_tag(tag@);
    let mut i: usize = roster.characters.len();
    while i > 0
        invariant
            i <= roster@.len(),
            carries == carries_tag(tag@),
            forall|j: int| i <= j < roster@.len() ==> !carries(#[trigger] roster@[j]),
        decreases i,
    {
        i -= 1;
        if *roster.characters[i].slug() == *tag {
            proof {
                lemma_last_where_is(roster@, carries, i as int);
            }
            return Some(i);
        }
    }
    proof {
        lemma_where_none(roster@, carries);
    }
    None
}

/// The name under which the speaker of a node speaks.
pub fn speaker(node: &DialogNode, roster: &Roster) -> (name: String)
    ensures
        name@ == speaker_of(*node, roster@),
{
    if node.actors.len() == 0 {
        "Narrator".to_owned()
    } else {
        match find_last(roster, &node.actors[0]) {
            Some(at) => roster.characters[at].alias().clone(),
            None => String::new(),
        }
    }
}

/// The place in the atlas of the portrait that goes with a node.
pub fn update_speaker_logo(node: &DialogNode, roster: &Roster) -> (index: usize)
    ensures
        index == portrait_of(*node, roster@),
{
    let tag = match node.kind {
        NodeKind::Start | NodeKind::Join | NodeKind::Leave => "empty".to_owned(),
        _ => if node.actors.len() == 0 {
            "narrator".to_owned()
        } else {
            node.actors[0].clone()
        },
    };
    match find_last(roster, &tag) {
        Some(at) => roster.characters[at].portrait.index,
        None => 0,
    }
}

/// What a node shows, if it shows anything.
pub fn update_text(node: &DialogNode, roster: &Roster) -> (line: Option<String>)
    ensures
        shows(line, line_of(*node, roster@)),
{
    match node.kind {
        NodeKind::Start => None,
        NodeKind::Talk => {
            let name = speaker(node, roster);
            Some(talk_text(name.as_str(), node.text.as_str()))
        },
        NodeKind::Join => {
            if names_actor(&node.actors, &"observer".to_owned()) {
                None
            } else {
                let names = debug_names(&node.actors);
                Some(scene_text(names.as_str(), true))
            }
        },
        NodeKind::Leave => {
            if names_actor(&node.actors, &"observer".to_owned()) {
                None
            } else {
                let names = debug_names(&node.actors);
                Some(scene_text(names.as_str(), false))
            }
        },
        NodeKind::Choice => Some(choice_text(&node.choices)),
    }
}

/// Lets the actors of a node enter or leave the scene.
pub fn update_actors_in_scene(node: &DialogNode, roster: &mut Roster)
    ensures
        final(roster)@.len() == old(roster)@.len(),
        forall|who: int|
            0 <= who < old(roster)@.len() ==> #[trigger] final(roster)@[who] == in_scene_after(
                old(roster)@[who],
                *node,
            ),
{
    let present = match node.kind {
        NodeKind::Join => true,
        NodeKind::Leave => false,
        _ => {
            return ;
        },
    };
    let mut i: usize = 0;
    while i < roster.characters.len()
        invariant
            i <= roster@.len(),
            roster@.len() == old(roster)@.len(),
            node.kind == NodeKind::Join || node.kind == NodeKind::Leave,
            present == (node.kind == NodeKind::Join),
            forall|who: int|
                0 <= who < i ==> #[trigger] roster@[who] == in_scene_after(old(roster)@[who], *node),
            forall|who: int| i <= who < roster@.len() ==> #[trigger] roster@[who] == old(roster)@[who],
        decreases roster@.len() - i,
    {
        if names_actor(&node.actors, roster.characters[i].slug()) {
            roster.characters[i].in_scene = present;
        }
        i += 1;
    }
}

/// What the player wants of the dialog.
#[derive(Debug, Clone, Copy, PartialEq, Eq, Structural)]
pub enum Intent {
    /// Go on to what follows.
    Advance,
    /// Take the option that goes with a number key, 0 to 9.
    Select(u8),
}

/// The option that a number key stands for: the keys 1 to 9 for the first
/// nine options, the key 0 for the tenth. Places count from 0.
pub open spec fn option_of_key(key: u8) -> Option<usize> {
    if 1 <= key <= 9 {
        Some((key - 1) as usize)
    } else if key == 0 {
        Some(9usize)
    } else {
        None
    }
}

pub fn option_for_key(key: u8) -> (option: Option<usize>)
    ensures
        option == option_of_key(key),
{
    if 1 <= key && key <= 9 {
        Some((key - 1) as usize)
    } else if key == 0 {
        Some(9)
    } else {
        None
    }
}

/// Whether a roll passes the check of a skill: it must stay below the
/// skill's value. Only agility and sneak are checked; the check of any
/// other skill fails.
pub open spec fn check_passes(skill: Seq<char>, skills: CharacterSkills, roll: u8) -> bool {
    if skill == "agility"@ {
        roll < skills.agility.value
    } else if skill == "sneak"@ {
        roll < skills.sneak.value
    } else {
        false
    }
}

/// Decides a skill check for a roll that was already made.
pub fn skill_check(skill: &String, skills: &CharacterSkills, roll: u8) -> (passed: bool)
    ensures
        passed == check_passes(skill@, *skills, roll),
{
    if *skill == "agility".to_owned() {
        roll < skills.agility.value
    } else if *skill == "sneak".to_owned() {
        roll < skills.sneak.value
    } else {
        false
    }
}

/// How a skill check went for one character.
#[derive(Debug, Clone, Copy, PartialEq, Eq, Structural)]
pub struct SkillCheck {
    /// The place of the character in the roster.
    pub who: usize,
    pub roll: u8,
    pub passed: bool,
}

/// Whether a character is put to a skill check: it is if it is in the
/// scene and has skills.
pub open spec fn is_checked(character: Character) -> bool {
    character.in_scene && character.skills is Some
}

/// The checks of a skill for all characters that are put to it, in the
/// order of the roster, each with the roll at the character's place. A
/// character for whom there is no roll is not checked.
pub open spec fn skill_checks(skill: Seq<char>, characters: Seq<Character>, rolls: Seq<u8>) -> Seq<
    SkillCheck,
>
    decreases characters.len(),
{
    if characters.len() == 0 {
        Seq::empty()
    } else {
        let before = skill_checks(skill, characters.drop_last(), rolls);
        let who = characters.len() - 1;
        if is_checked(characters.last()) && who < rolls.len() {
            before.push(
                SkillCheck {
                    who: who as usize,
                    roll: rolls[who],
                    passed: check_passes(skill, characters.last().skills->0, rolls[who]),
                },
            )
        } else {
            before
        }
    }
}

/// Puts every character in the scene to a skill check, with rolls that
/// were already made.
pub fn check_scene(skill: &String, roster: &Roster, rolls: &Vec<u8>) -> (checks: Vec<SkillCheck>)
    ensures
        checks@ == skill_checks(skill@, roster@, rolls@),
{
    let mut checks: Vec<SkillCheck> = Vec::new();
    let mut i: usize = 0;
    assert(roster@.take(0) =~= Seq::<Character>::empty());
    while i < roster.characters.len()
        invariant
            i <= roster@.len(),
            checks@ == skill_checks(skill@, roster@.take(i as int), rolls@),
        decreases roster@.len() - i,
    {
        proof {
            let longer = roster@.take(i + 1);
            assert(longer.drop_last() =~= roster@.take(i as int));
            assert(longer.last() == roster@[i as int]);
        }
        let character = &roster.characters[i];
        if character.in_scene && i < rolls.len() {
            if let Some(skills) = &character.skills {
                let roll = rolls[i];
                checks.push(SkillCheck { who: i, roll, passed: skill_check(skill, skills, roll) });
            }
        }
        i += 1;
    }
    assert(roster@.take(roster@.len() as int) =~= roster@);
    checks
}

/// What the engine hands to the presentation when a new node was entered.
#[derive(Debug)]
pub struct SceneUpdate {
    /// The line to show, if the node shows one.
    pub line: Option<String>,
    /// The place in the atlas of the portrait to show.
    pub portrait: usize,
    /// Whether the engine went on to the next node by itself.
    pub auto_advanced: bool,
    /// Whether the dialog has ended with this node.
    pub ended: bool,
}

/// The engine of one dialog scene. It owns the dialog, which is sound, and
/// knows the node that the dialog is at.
#[derive(Debug)]
pub struct DialogEngine {
    graph: DialogGraph,
    current: usize,
    changed: bool,
    ended: bool,
}

impl DialogEngine {
    #[verifier::type_invariant]
    spec fn sound(self) -> bool {
        is_sound(self.graph) && self.current < self.graph.nodes@.len()
    }

    /// The engine is well formed: its dialog is sound and it is at one of
    /// the dialog's nodes. Every engine that runs is.
    pub closed spec fn wf(self) -> bool {
        self.sound()
    }

    /// The dialog.
    pub closed spec fn graph(self) -> DialogGraph {
        self.graph
    }

    /// The place of the current node among the nodes of the dialog.
    pub closed spec fn position(self) -> int {
        self.current as int
    }

    /// Whether the current node was entered since the last update.
    pub closed spec fn changed(self) -> bool {
        self.changed
    }

    /// Whether the dialog has ended.
    pub closed spec fn ended(self) -> bool {
        self.ended
    }

    /// The current node.
    pub open spec fn node(self) -> DialogNode {
        self.graph().nodes@[self.position()]
    }

    /// Whether the dialog can go on from the current node by itself: not
    /// once it has ended, not from a choice, and not from a node that
    /// nothing follows.
    pub open spec fn can_advance(self) -> bool {
        !self.ended() && self.node().kind != NodeKind::Choice && self.node().next is Some
    }

    /// Whether an option can be taken: only at a choice that has it, and
    /// not once the dialog has ended.
    pub open spec fn can_choose(self, option: usize) -> bool {
        !self.ended() && self.node().kind == NodeKind::Choice && option
            < self.node().choices@.len()
    }

    /// The place of the node with the given id.
    pub open spec fn place_of(self, id: usize) -> int {
        node_at(self.graph().nodes@, id)->0
    }

    /// Whether the current node is passed without a word: a join that
    /// names the observer is.
    pub open spec fn auto_skips(self) -> bool {
        self.node().kind == NodeKind::Join && has_observer(self.node().actors@)
    }

    /// Whether the current node ends the dialog: a leave that names the
    /// observer does.
    pub open spec fn signals_end(self) -> bool {
        self.node().kind == NodeKind::Leave && has_observer(self.node().actors@)
    }

    /// Whether the engine hears the player: it does not while a node that
    /// was entered is still waiting for its update.
    pub open spec fn hears(self) -> bool {
        !self.changed()
    }

    /// The option that an intent takes at the current node, if it takes
    /// one: a number key takes the option it stands for, if the choice has
    /// that many and the engine hears the player.
    pub open spec fn taken(self, intent: Intent) -> Option<usize> {
        match intent {
            Intent::Select(key) => match option_of_key(key) {
                Some(option) => if self.hears() && self.can_choose(option) {
                    Some(option)
                } else {
                    None
                },
                None => None,
            },
            Intent::Advance => None,
        }
    }

    /// Whether an intent makes the dialog go on to the node that follows.
    pub open spec fn goes_on(self, intent: Intent) -> bool {
        intent == Intent::Advance && self.hears() && self.can_advance()
    }

    /// Opens a dialog at its start. A dialog that is not sound is refused
    /// with a configuration error, before any of its nodes is entered.
    pub fn open(graph: DialogGraph) -> (opened: Result<DialogEngine, GameError>)
        ensures
            opened is Ok <==> is_sound(graph),
            opened matches Ok(engine) ==> {
                &&& engine.wf()
                &&& engine.graph() == graph
                &&& node_at(graph.nodes@, graph.start) == Some(engine.position())
                &&& !engine.changed()
                &&& !engine.ended()
            },
            opened matches Err(error) ==> error == GameError::ConfigurationError,
    {
        match graph.validate() {
            Ok(()) => {},
            Err(_) => {
                return Err(GameError::ConfigurationError);
            },
        }
        match graph.find(graph.start) {
            Some(at) => Ok(DialogEngine { graph, current: at, changed: false, ended: false }),
            None => Err(GameError::ConfigurationError),
        }
    }

    /// The current node.
    pub fn current(&self) -> (node: &DialogNode)
        ensures
            self.wf(),
            *node == self.node(),
    {
        proof {
            use_type_invariant(self);
        }
        &self.graph.nodes[self.current]
    }

    pub fn current_kind(&self) -> (kind: NodeKind)
        ensures
            kind == self.node().kind,
    {
        self.current().kind
    }

    pub fn is_changed(&self) -> (changed: bool)
        ensures
            changed == self.changed(),
    {
        self.changed
    }

    pub fn is_ended(&self) -> (ended: bool)
        ensures
            ended == self.ended(),
    {
        self.ended
    }

    /// Goes on to the node that follows the current one, if the dialog
    /// can go on by itself, and says whether it did.
    pub fn next_action(&mut self) -> (moved: bool)
        ensures
            final(self).wf(),
            final(self).graph() == old(self).graph(),
            final(self).ended() == old(self).ended(),
            moved == old(self).can_advance(),
            moved ==> final(self).position() == old(self).place_of(old(self).node().next->0)
                && final(self).changed(),
            !moved ==> final(self).position() == old(self).position() && final(self).changed()
                == old(self).changed(),
    {
        proof {
            use_type_invariant(&*self);
        }
        if self.ended {
            return false;
        }
        let node = &self.graph.nodes[self.current];
        if node.kind == NodeKind::Choice {
            return false;
        }
        let next = match node.next {
            Some(next) => next,
            None => {
                return false;
            },
        };
        match self.graph.find(next) {
            Some(at) => {
                self.current = at;
                self.changed = true;
                true
            },
            None => {
                proof {
                    assert(refers_within(self.graph.nodes@, self.graph.nodes@[self.current as int]));
                }
                false
            },
        }
    }

    /// Takes an option of the current choice and goes to the node that it
    /// leads to. Where the option cannot be taken, nothing changes.
    pub fn choose_action(&mut self, option: usize) -> (moved: bool)
        ensures
            final(self).wf(),
            final(self).graph() == old(self).graph(),
            final(self).ended() == old(self).ended(),
            moved == old(self).can_choose(option),
            moved ==> final(self).position() == old(self).place_of(
                old(self).node().choices@[option as int].next,
            ) && final(self).changed(),
            !moved ==> final(self).position() == old(self).position() && final(self).changed()
                == old(self).changed(),
    {
        proof {
            use_type_invariant(&*self);
        }
        if self.ended {
            return false;
        }
        let node = &self.graph.nodes[self.current];
        if node.kind != NodeKind::Choice || option >= node.choices.len() {
            return false;
        }
        let next = node.choices[option].next;
        match self.graph.find(next) {
            Some(at) => {
                self.current = at;
                self.changed = true;
                true
            },
            None => {
                proof {
                    assert(refers_within(self.graph.nodes@, self.graph.nodes@[self.current as int]));
                }
                false
            },
        }
    }

    /// Takes an intent of the player, with rolls that were already made,
    /// one for each character of the roster. At a choice, a number key
    /// takes the option it stands for: if the option asks for a skill
    /// check, every character in the scene is put to it, and then, however
    /// the checks went, the dialog goes to the node that the option leads
    /// to. A key for an option that is not there does nothing. At any
    /// other node, only the intent to go on is heard. While a node that was
    /// entered waits for its update, no intent is heard at all. Returns
    /// the checks that were made.
    pub fn interact_with(&mut self, intent: Intent, roster: &Roster, rolls: &Vec<u8>) -> (checks:
        Vec<SkillCheck>)
        ensures
            final(self).wf(),
            final(self).graph() == old(self).graph(),
            final(self).ended() == old(self).ended(),
            match old(self).taken(intent) {
                Some(option) => {
                    let choice = old(self).node().choices@[option as int];
                    &&& final(self).position() == old(self).place_of(choice.next)
                    &&& final(self).changed()
                    &&& checks@ == match choice.check {
                        Some(skill) => skill_checks(skill@, roster@, rolls@),
                        None => Seq::<SkillCheck>::empty(),
                    }
                },
                None => {
                    &&& checks@ == Seq::<SkillCheck>::empty()
                    &&& if old(self).goes_on(intent) {
                        final(self).position() == old(self).place_of(old(self).node().next->0)
                            && final(self).changed()
                    } else {
                        final(self).position() == old(self).position() && final(self).changed()
                            == old(self).changed()
                    }
                },
            },
    {
        proof {
            use_type_invariant(&*self);
        }
        if self.changed {
            return Vec::new();
        }
        match intent {
            Intent::Advance => {
                self.next_action();
                Vec::new()
            },
            Intent::Select(key) => {
                let option = match option_for_key(key) {
                    Some(option) => option,
                    None => {
                        return Vec::new();
                    },
                };
                let node = &self.graph.nodes[self.current];
                if self.ended || node.kind != NodeKind::Choice || option >= node.choices.len() {
                    return Vec::new();
                }
                let checks = match &node.choices[option].check {
                    Some(skill) => check_scene(skill, roster, rolls),
                    None => Vec::new(),
                };
                self.choose_action(option);
                checks
            },
        }
    }

    /// Takes an intent of the player, and rolls the die for the skill
    /// checks that it calls for.
    pub fn interact(&mut self, intent: Intent, roster: &Roster) -> (checks: Vec<SkillCheck>)
        ensures
            final(self).wf(),
            final(self).graph() == old(self).graph(),
            final(self).ended() == old(self).ended(),
            match old(self).taken(intent) {
                Some(option) => {
                    let choice = old(self).node().choices@[option as int];
                    &&& final(self).position() == old(self).place_of(choice.next)
                    &&& final(self).changed()
                    &&& match choice.check {
                        Some(skill) => exists|rolls: Seq<u8>|
                            rolls.len() == roster@.len() && crate::initiative::are_rolls(rolls)
                                && checks@ == #[trigger] skill_checks(skill@, roster@, rolls),
                        None => checks@ == Seq::<SkillCheck>::empty(),
                    }
                },
                None => {
                    &&& checks@ == Seq::<SkillCheck>::empty()
                    &&& if old(self).goes_on(intent) {
                        final(self).position() == old(self).place_of(old(self).node().next->0)
                            && final(self).changed()
                    } else {
                        final(self).position() == old(self).position() && final(self).changed()
                            == old(self).changed()
                    }
                },
            },
    {
        let rolls = roll_many(roster.len());
        self.interact_with(intent, roster, &rolls)
    }

    /// Answers the entering of a node. Where no node was entered since the
    /// last update, there is nothing to answer, and nothing changes.
    /// Otherwise the actors of the node enter or leave the scene, and the
    /// update says what to show. A join that names the observer is passed
    /// at once: the engine goes on to the next node, which the next update
    /// answers. A leave that names the observer ends the dialog.
    pub fn update(&mut self, roster: &mut Roster) -> (update: Option<SceneUpdate>)
        ensures
            final(self).wf(),
            final(self).graph() == old(self).graph(),
            final(roster)@.len() == old(roster)@.len(),
            !old(self).changed() ==> {
                &&& update is None
                &&& final(roster)@ == old(roster)@
                &&& final(self).position() == old(self).position()
                &&& !final(self).changed()
                &&& final(self).ended() == old(self).ended()
            },
            old(self).changed() ==> {
                &&& update matches Some(scene)
                &&& shows(scene.line, line_of(old(self).node(), old(roster)@))
                &&& scene.portrait == portrait_of(old(self).node(), old(roster)@)
                &&& scene.auto_advanced == (old(self).auto_skips() && old(self).can_advance())
                &&& scene.ended == old(self).signals_end()
                &&& final(self).ended() == (old(self).ended() || old(self).signals_end())
                &&& forall|who: int|
                    0 <= who < old(roster)@.len() ==> #[trigger] final(roster)@[who]
                        == in_scene_after(old(roster)@[who], old(self).node())
                &&& if scene.auto_advanced {
                    final(self).position() == old(self).place_of(old(self).node().next->0)
                        && final(self).changed()
                } else {
                    final(self).position() == old(self).position() && !final(self).changed()
                }
            },
    {
        proof {
            use_type_invariant(&*self);
        }
        if !self.changed {
            return None;
        }
        let node = &self.graph.nodes[self.current];
        let line = update_text(node, roster);
        let portrait = update_speaker_logo(node, roster);
        let observed = names_actor(&node.actors, &"observer".to_owned());
        let kind = node.kind;
        update_actors_in_scene(node, roster);
        self.changed = false;
        let mut auto_advanced = false;
        let mut ended = false;
        if observed {
            match kind {
                NodeKind::Join => {
                    auto_advanced = self.next_action();
                },
                NodeKind::Leave => {
                    self.ended = true;
                    ended = true;
                },
                _ => {},
            }
        }
        Some(SceneUpdate { line, portrait, auto_advanced, ended })
    }
}

/// A join puts the actors it names into the scene, and changes nothing
/// else of them, and nothing at all of the others.
pub proof fn lemma_join_enters(character: Character, node: DialogNode)
    requires
        node.kind == NodeKind::Join,
    ensures
        in_cast(node.actors@, character.slug_text()) ==> in_scene_after(character, node)
            == (Character { in_scene: true, ..character }),
        !in_cast(node.actors@, character.slug_text()) ==> in_scene_after(character, node)
            == character,
{
}

/// A leave takes the actors it names out of the scene, and changes nothing
/// else of them, and nothing at all of the others.
pub proof fn lemma_leave_exits(character: Character, node: DialogNode)
    requires
        node.kind == NodeKind::Leave,
    ensures
        in_cast(node.actors@, character.slug_text()) ==> in_scene_after(character, node)
            == (Character { in_scene: false, ..character }),
        !in_cast(node.actors@, character.slug_text()) ==> in_scene_after(character, node)
            == character,
{
}

/// A join followed by a leave of the same actors leaves a character as it
/// was, unless the character is one of them and was in the scene before
/// the join: then the leave takes it out.
pub proof fn lemma_join_then_leave(character: Character, join: DialogNode, leave: DialogNode)
    requires
        join.kind == NodeKind::Join,
        leave.kind == NodeKind::Leave,
        join.actors@ == leave.actors@,
    ensures
        in_scene_after(in_scene_after(character, join), leave) == (Character {
            in_scene: character.in_scene && !in_cast(join.actors@, character.slug_text()),
            ..character
        }),
        !character.in_scene ==> in_scene_after(in_scene_after(character, join), leave)
            == character,
{
    let joined = in_scene_after(character, join);
    assert(joined.slug_text() == character.slug_text());
}

/// Only characters that are in the scene are put to a skill check, each at
/// most once, and in the order of the roster.
pub proof fn lemma_checks_are_of_the_scene(
    skill: Seq<char>,
    characters: Seq<Character>,
    rolls: Seq<u8>,
    at: int,
)
    requires
        characters.len() <= usize::MAX,
        0 <= at < skill_checks(skill, characters, rolls).len(),
    ensures
        ({
            let check = skill_checks(skill, characters, rolls)[at];
            &&& check.who < characters.len()
            &&& is_checked(characters[check.who as int])
            &&& check.who < rolls.len()
            &&& check.roll == rolls[check.who as int]
            &&& check.passed == check_passes(
                skill,
                characters[check.who as int].skills->0,
                check.roll,
            )
            &&& forall|earlier: int|
                0 <= earlier < at ==> (#[trigger] skill_checks(
                    skill,
                    characters,
                    rolls,
                )[earlier]).who < check.who
        }),
    decreases characters.len(),
{
    if characters.len() > 0 {
        let shorter = characters.drop_last();
        let before = skill_checks(skill, shorter, rolls);
        lemma_checks_stay_within(skill, shorter, rolls);
        assert(forall|i: int| 0 <= i < shorter.len() ==> shorter[i] == characters[i]);
        if at < before.len() {
            lemma_checks_are_of_the_scene(skill, shorter, rolls, at);
        }
    }
}

/// Every check is of a character that the roster has.
proof fn lemma_checks_stay_within(skill: Seq<char>, characters: Seq<Character>, rolls: Seq<u8>)
    requires
        characters.len() <= usize::MAX,
    ensures
        forall|at: int|
            0 <= at < skill_checks(skill, characters, rolls).len() ==> (#[trigger] skill_checks(
                skill,
                characters,
                rolls,
            )[at]).who < characters.len(),
    decreases characters.len(),
{
    if characters.len() > 0 {
        let shorter = characters.drop_last();
        lemma_checks_stay_within(skill, shorter, rolls);
        let before = skill_checks(skill, shorter, rolls);
        let all = skill_checks(skill, characters, rolls);
        assert forall|at: int| 0 <= at < all.len() implies (#[trigger] all[at]).who
            < characters.len() by {
            if at < before.len() {
                assert(all[at] == before[at]);
            }
        }
    }
}

/// A join or a leave that names the observer shows nothing.
pub proof fn lemma_observer_is_silent(node: DialogNode, characters: Seq<Character>)
    requires
        node.kind == NodeKind::Join || node.kind == NodeKind::Leave,
        has_observer(node.actors@),
    ensures
        line_of(node, characters) is None,
{
}

/// The ten number keys stand for the first ten options, each key for one
/// option and each option for one key; no other key stands for an option.
pub proof fn lemma_keys_and_options(key: u8, other: u8)
    ensures
        key <= 9 <==> option_of_key(key) is Some,
        option_of_key(key) matches Some(option) ==> option < 10 && (option + 1) % 10 == key,
        key <= 9 && other <= 9 && key != other ==> option_of_key(key) != option_of_key(other),
{
}

/// A key for an option that the choice does not have takes nothing.
pub proof fn lemma_key_out_of_range(engine: DialogEngine, key: u8)
    requires
        engine.wf(),
        option_of_key(key) matches Some(option) ==> option >= engine.node().choices@.len(),
    ensures
        engine.taken(Intent::Select(key)) is None,
{
}

/// In a sound dialog, wherever the engine stands, the node that follows
/// and the node that each option leads to are nodes of the dialog.
pub proof fn lemma_sound_dialog_leads_somewhere(engine: DialogEngine, option: int)
    requires
        engine.wf(),
    ensures
        engine.node().next is Some ==> 0 <= engine.place_of(engine.node().next->0)
            < engine.graph().nodes@.len(),
        0 <= option < engine.node().choices@.len() ==> 0 <= engine.place_of(
            engine.node().choices@[option].next,
        ) < engine.graph().nodes@.len(),
{
    let nodes = engine.graph().nodes@;
    assert(refers_within(nodes, nodes[engine.position()]));
    if engine.node().next is Some {
        lemma_node_at(nodes, engine.node().next->0);
    }
    if 0 <= option < engine.node().choices@.len() {
        lemma_node_at(nodes, engine.node().choices@[option].next);
    }
}

} // verus!
