//! The configuration of a run: two speakers, the director's notes, the
//! opening lines and the scene, each read from the text of its file.

use crate::decimal::{parse_decimal, parse_usize};
use crate::error::DialogGenError;
use crate::script::{dialog_lines, parse_dialog_line, script_lines, Utterance};
use crate::text::{
    chars_of, find, first_index_of, lines_of, occurs_at, same_text, slice, split_lines, string_of, texts,
    trim, trimmed,
};
use crate::unicode::{is_label, label_chars, lowercase, str_to_lowercase};
use vstd::prelude::*;
use vstd::string::StringExecFns;

verus! {

/// A character of the dialog.
#[derive(Debug)]
pub struct Speaker {
    pub name: String,
    pub background: String,
    pub personality: String,
    pub motivations: String,
    pub speaking_style: String,
}

impl Clone for Speaker {
    fn clone(&self) -> (copy: Speaker)
        ensures
            copy == *self,
    {
        Speaker {
            name: self.name.clone(),
            background: self.background.clone(),
            personality: self.personality.clone(),
            motivations: self.motivations.clone(),
            speaking_style: self.speaking_style.clone(),
        }
    }
}

/// The parameters of a scene. The sampling temperature is kept as it is
/// written in the scene file: the library hands it on and never computes
/// with it.
#[derive(Debug)]
pub struct Scene {
    pub turns: usize,
    pub model: Option<String>,
    pub temperature: Option<String>,
}

impl Clone for Scene {
    fn clone(&self) -> (copy: Scene)
        ensures
            copy == *self,
    {
        let model = match &self.model {
            Some(m) => Some(m.clone()),
            None => None,
        };
        let temperature = match &self.temperature {
            Some(t) => Some(t.clone()),
            None => None,
        };
        Scene { turns: self.turns, model, temperature }
    }
}

/// The director's notes, shared by all turns.
#[derive(Debug)]
pub struct Directions {
    pub scene_name: String,
    pub setting: String,
    pub mood: String,
    pub goal: String,
    pub notes: String,
}

impl Clone for Directions {
    fn clone(&self) -> (copy: Directions)
        ensures
            copy == *self,
    {
        Directions {
            scene_name: self.scene_name.clone(),
            setting: self.setting.clone(),
            mood: self.mood.clone(),
            goal: self.goal.clone(),
            notes: self.notes.clone(),
        }
    }
}

/// One opening line of the dialog.
#[derive(Debug)]
pub struct DialogLine {
    pub speaker: String,
    pub content: String,
}

impl Clone for DialogLine {
    fn clone(&self) -> (copy: DialogLine)
        ensures
            copy == *self,
    {
        DialogLine { speaker: self.speaker.clone(), content: self.content.clone() }
    }
}

/// Everything that a run is configured with.
#[derive(Debug)]
pub struct DialogConfig {
    pub speaker1: Speaker,
    pub speaker2: Speaker,
    pub directions: Directions,
    pub initial_lines: Vec<DialogLine>,
    pub scene: Scene,
}

/// The text of each configuration file, or `None` for a file that could
/// not be read.
#[derive(Debug)]
pub struct ConfigSources {
    pub speaker1: Option<String>,
    pub speaker2: Option<String>,
    pub directions: Option<String>,
    pub prompt: Option<String>,
    pub scene: Option<String>,
}

/// The number of turns of a scene that names none.
pub const DEFAULT_TURNS: usize = 4;

/// The model that is asked where neither the caller nor the scene names
/// another.
pub const DEFAULT_MODEL: &'static str = "mistral:7b";

impl View for DialogLine {
    type V = Utterance;

    open spec fn view(&self) -> Utterance {
        Utterance { speaker: self.speaker@, content: self.content@ }
    }
}

/// What a sequence of opening lines says.
pub open spec fn line_views(lines: Seq<DialogLine>) -> Seq<Utterance> {
    Seq::new(lines.len(), |i: int| lines[i]@)
}

/// One key of a configuration file with its value.
struct Entry {
    key: Vec<char>,
    value: Vec<char>,
}

/// The keys of a configuration file with their values. A key that is
/// written again takes the later value.
pub struct Fields {
    entries: Vec<Entry>,
}

/// The value that the entries give to `key`: that of the last entry with
/// this key.
spec fn lookup(entries: Seq<Entry>, key: Seq<char>) -> Option<Seq<char>>
    decreases entries.len(),
{
    if entries.len() == 0 {
        None
    } else if entries.last().key@ == key {
        Some(entries.last().value@)
    } else {
        lookup(entries.drop_last(), key)
    }
}

/// The map that the entries build up, one insertion after the other.
spec fn entries_map(entries: Seq<Entry>) -> Map<Seq<char>, Seq<char>>
    decreases entries.len(),
{
    if entries.len() == 0 {
        Map::empty()
    } else {
        entries_map(entries.drop_last()).insert(entries.last().key@, entries.last().value@)
    }
}

/// Looking a key up in the entries is looking it up in their map.
proof fn lemma_lookup_is_map(entries: Seq<Entry>, key: Seq<char>)
    ensures
        lookup(entries, key) is Some <==> entries_map(entries).contains_key(key),
        lookup(entries, key) matches Some(v) ==> entries_map(entries)[key] == v,
    decreases entries.len(),
{
    if entries.len() > 0 {
        lemma_lookup_is_map(entries.drop_last(), key);
    }
}

impl View for Fields {
    type V = Map<Seq<char>, Seq<char>>;

    closed spec fn view(&self) -> Map<Seq<char>, Seq<char>> {
        entries_map(self.entries@)
    }
}

/// The value of `key` in `fields`, or the empty text where it has none.
pub open spec fn field_text(fields: Map<Seq<char>, Seq<char>>, key: Seq<char>) -> Seq<char> {
    if fields.contains_key(key) {
        fields[key]
    } else {
        Seq::empty()
    }
}

/// The value of `key` in `fields`, if it has one.
pub open spec fn field_option(fields: Map<Seq<char>, Seq<char>>, key: Seq<char>) -> Option<
    Seq<char>,
> {
    if fields.contains_key(key) {
        Some(fields[key])
    } else {
        None
    }
}

impl Fields {
    /// No keys.
    pub fn new() -> (fields: Fields)
        ensures
            fields@ == Map::<Seq<char>, Seq<char>>::empty(),
    {
        Fields { entries: Vec::new() }
    }

    /// Gives `key` the value `value`.
    pub fn insert(&mut self, key: Vec<char>, value: Vec<char>)
        ensures
            final(self)@ == old(self)@.insert(key@, value@),
    {
        let ghost before = self.entries@;
        self.entries.push(Entry { key, value });
        assert(self.entries@.drop_last() =~= before);
    }

    /// The value of `key`, if it has one.
    pub fn get(&self, key: &str) -> (value: Option<String>)
        ensures
            match value {
                Some(v) => self@.contains_key(key@) && self@[key@] == v@,
                None => !self@.contains_key(key@),
            },
    {
        let k = chars_of(key);
        let mut i: usize = self.entries.len();
        assert(self.entries@.take(i as int) =~= self.entries@);
        while i > 0
            invariant
                i <= self.entries.len(),
                k@ == key@,
                lookup(self.entries@, key@) == lookup(self.entries@.take(i as int), key@),
            decreases i,
        {
            let ghost upto = self.entries@.take(i as int);
            assert(upto.last() == self.entries@[i - 1]);
            assert(upto.drop_last() =~= self.entries@.take(i - 1));
            if same_text(&self.entries[i - 1].key, &k) {
                proof {
                    lemma_lookup_is_map(self.entries@, key@);
                }
                return Some(string_of(&self.entries[i - 1].value));
            }
            i -= 1;
        }
        proof {
            lemma_lookup_is_map(self.entries@, key@);
        }
        None
    }
}

/// What has been read of a configuration file: the finished keys, and the
/// key whose value is still being read.
pub struct KeyValueState {
    pub fields: Map<Seq<char>, Seq<char>>,
    pub key: Option<Seq<char>>,
    pub value: Seq<char>,
}

/// The key that the trimmed line `line` opens, in lower case, with the
/// beginning of its value: the line holds a colon, and what stands before
/// the first colon is not empty and consists of letters and white space.
pub open spec fn key_line(line: Seq<char>) -> Option<(Seq<char>, Seq<char>)> {
    match first_index_of(line, seq![':']) {
        Some(colon) => {
            let label = line.take(colon);
            if label.len() > 0 && is_label(label) {
                Some((str_to_lowercase(label), trim(line.skip(colon + 1))))
            } else {
                None
            }
        },
        None => None,
    }
}

/// The finished keys of `state`, with the open key among them.
pub open spec fn flushed(state: KeyValueState) -> Map<Seq<char>, Seq<char>> {
    match state.key {
        Some(key) => state.fields.insert(key, trim(state.value)),
        None => state.fields,
    }
}

/// Reading one more line: a line that opens a key finishes the open key;
/// any other line that is not blank continues the value of the open key,
/// after a space.
pub open spec fn key_value_step(state: KeyValueState, line: Seq<char>) -> KeyValueState {
    let t = trim(line);
    match key_line(t) {
        Some(opened) => KeyValueState {
            fields: flushed(state),
            key: Some(opened.0),
            value: opened.1,
        },
        None => if state.key is Some && t.len() > 0 {
            KeyValueState {
                fields: state.fields,
                key: state.key,
                value: if state.value.len() > 0 {
                    state.value.push(' ') + t
                } else {
                    t
                },
            }
        } else {
            state
        },
    }
}

/// Reading `lines` from the start of a file.
pub open spec fn key_value_fold(lines: Seq<Seq<char>>) -> KeyValueState
    decreases lines.len(),
{
    if lines.len() == 0 {
        KeyValueState { fields: Map::empty(), key: None, value: Seq::empty() }
    } else {
        key_value_step(key_value_fold(lines.drop_last()), lines.last())
    }
}

/// The keys and values that the text `content` of a configuration file
/// defines.
pub open spec fn key_values(content: Seq<char>) -> Map<Seq<char>, Seq<char>> {
    flushed(key_value_fold(split_lines(content)))
}

/// The number of turns that the keys of a scene file ask for.
pub open spec fn turns_of(fields: Map<Seq<char>, Seq<char>>) -> usize {
    if fields.contains_key("turns"@) {
        match parse_decimal(fields["turns"@]) {
            Some(n) => if n <= usize::MAX {
                n as usize
            } else {
                DEFAULT_TURNS
            },
            None => DEFAULT_TURNS,
        }
    } else {
        DEFAULT_TURNS
    }
}

/// The view of an optional text.
pub open spec fn option_text(s: Option<String>) -> Option<Seq<char>> {
    match s {
        Some(t) => Some(t@),
        None => None,
    }
}

impl Speaker {
    /// Whether the speaker is the one that `fields` describes.
    pub open spec fn is_from(&self, fields: Map<Seq<char>, Seq<char>>) -> bool {
        &&& self.name@ == field_text(fields, "name"@)
        &&& self.background@ == field_text(fields, "background"@)
        &&& self.personality@ == field_text(fields, "personality"@)
        &&& self.motivations@ == field_text(fields, "motivations"@)
        &&& self.speaking_style@ == field_text(fields, "speaking style"@)
    }
}

impl Directions {
    /// Whether the notes are those that `fields` describes.
    pub open spec fn is_from(&self, fields: Map<Seq<char>, Seq<char>>) -> bool {
        &&& self.scene_name@ == field_text(fields, "scene"@)
        &&& self.setting@ == field_text(fields, "setting"@)
        &&& self.mood@ == field_text(fields, "mood"@)
        &&& self.goal@ == field_text(fields, "goal"@)
        &&& self.notes@ == field_text(fields, "notes"@)
    }
}

impl Scene {
    /// Whether the scene is the one that `fields` describes.
    pub open spec fn is_from(&self, fields: Map<Seq<char>, Seq<char>>) -> bool {
        &&& self.turns == turns_of(fields)
        &&& option_text(self.model) == field_option(fields, "model"@)
        &&& option_text(self.temperature) == field_option(fields, "temperature"@)
    }
}

impl Scene {
    /// The model of a run for which the caller asked for `requested`: a
    /// request for another model than [`DEFAULT_MODEL`] is followed; else
    /// the scene's model is taken, where it names one.
    pub open spec fn model_text(&self, requested: Seq<char>) -> Seq<char> {
        if requested != DEFAULT_MODEL@ {
            requested
        } else {
            match self.model {
                Some(m) => m@,
                None => requested,
            }
        }
    }

    /// The name of the model to ask: see [`Scene::model_text`].
    pub fn model_for(&self, requested: &str) -> (model: String)
        ensures
            model@ == self.model_text(requested@),
    {
        let asked = String::from_str(requested);
        if asked != String::from_str(DEFAULT_MODEL) {
            asked
        } else {
            match &self.model {
                Some(m) => m.clone(),
                None => asked,
            }
        }
    }
}

/// The value of `key` in `fields`, or the empty text.
fn text_of(fields: &Fields, key: &str) -> (text: String)
    ensures
        text@ == field_text(fields@, key@),
{
    match fields.get(key) {
        Some(v) => v,
        None => String::new(),
    }
}

/// The dialog lines among `lines`, as opening lines.
pub fn read_dialog_lines(lines: &Vec<Vec<char>>, limit: Option<usize>) -> (out: Vec<DialogLine>)
    ensures
        line_views(out@) == dialog_lines(texts(lines@), limit),
{
    let mut out: Vec<DialogLine> = Vec::new();
    let mut i: usize = 0;
    let ghost all = texts(lines@);
    assert(line_views(out@) =~= Seq::<Utterance>::empty());
    assert(all.take(0) =~= Seq::<Seq<char>>::empty());
    while i < lines.len()
        invariant
            i <= lines.len(),
            all == texts(lines@),
            line_views(out@) == dialog_lines(all.take(i as int), limit),
        decreases lines.len() - i,
    {
        let ghost upto = all.take(i + 1);
        assert(upto.drop_last() =~= all.take(i as int));
        assert(upto.last() == lines@[i as int]@);
        match parse_dialog_line(&lines[i], limit) {
            Some(pair) => {
                let line = DialogLine { speaker: string_of(&pair.0), content: string_of(&pair.1) };
                assert(line_views(out@.push(line)) =~= line_views(out@).push(line@));
                out.push(line);
            },
            None => {},
        }
        i += 1;
    }
    assert(all.take(lines.len() as int) =~= all);
    out
}

/// What has been read of a configuration file, as the parser holds it.
struct KeyValueReader {
    fields: Fields,
    key: Option<Vec<char>>,
    value: Vec<char>,
}

impl KeyValueReader {
    spec fn state(&self) -> KeyValueState {
        KeyValueState {
            fields: self.fields@,
            key: match self.key {
                Some(k) => Some(k@),
                None => None,
            },
            value: self.value@,
        }
    }

    /// Closes the open key, if there is one.
    fn flush(&mut self)
        ensures
            final(self).fields@ == flushed(old(self).state()),
    {
        let mut key: Option<Vec<char>> = None;
        std::mem::swap(&mut self.key, &mut key);
        match key {
            Some(k) => {
                let v = trimmed(&self.value);
                self.fields.insert(k, v);
            },
            None => {},
        }
    }

    /// Reads one more line.
    fn step(&mut self, line: &Vec<char>)
        ensures
            final(self).state() == key_value_step(old(self).state(), line@),
    {
        let t = trimmed(line);
        match read_key_line(&t) {
            Some(opened) => {
                self.flush();
                self.key = Some(opened.0);
                self.value = opened.1;
            },
            None => {
                if self.key.is_some() && t.len() > 0 {
                    if self.value.len() > 0 {
                        self.value.push(' ');
                    }
                    let ghost before = self.value@;
                    let mut k: usize = 0;
                    while k < t.len()
                        invariant
                            k <= t.len(),
                            self.value@ == before + t@.take(k as int),
                            self.key == old(self).key,
                            self.fields == old(self).fields,
                        decreases t.len() - k,
                    {
                        self.value.push(t[k]);
                        assert(t@.take(k + 1) =~= t@.take(k as int).push(t@[k as int]));
                        assert(before + t@.take(k + 1) =~= (before + t@.take(k as int)).push(
                            t@[k as int],
                        ));
                        k += 1;
                    }
                    assert(t@.take(t.len() as int) =~= t@);
                    assert(Seq::<char>::empty() + t@ =~= t@);
                }
            },
        }
    }
}

/// The key that the trimmed line `line` opens, with the beginning of its
/// value.
fn read_key_line(line: &Vec<char>) -> (r: Option<(Vec<char>, Vec<char>)>)
    ensures
        match key_line(line@) {
            Some(opened) => r matches Some(pair) && pair.0@ == opened.0 && pair.1@ == opened.1,
            None => r is None,
        },
{
    let mut pat: Vec<char> = Vec::new();
    pat.push(':');
    assert(pat@ =~= seq![':']);
    match find(line, &pat) {
        Some(colon) => {
            assert(pat@.len() == 1 && occurs_at(line@, pat@, colon as int));
            assert(colon + 1 <= line.len());
            assert(line@.take(colon as int) =~= line@.subrange(0, colon as int));
            assert(line@.skip(colon + 1) =~= line@.subrange(colon + 1, line@.len() as int));
            let label = slice(line, 0, colon);
            if label.len() > 0 && label_chars(&label) {
                let rest = slice(line, colon + 1, line.len());
                Some((lowercase(&label), trimmed(&rest)))
            } else {
                None
            }
        },
        None => None,
    }
}

impl DialogConfig {
    /// Reads the keys and values of a configuration file: lines of the
    /// form `Key: value`, where a line without a key continues the value
    /// of the key before it.
    pub fn parse_key_value(content: &str) -> (fields: Fields)
        ensures
            fields@ == key_values(content@),
    {
        let text = chars_of(content);
        let lines = lines_of(&text);
        let ghost all = texts(lines@);
        let mut reader = KeyValueReader { fields: Fields::new(), key: None, value: Vec::new() };
        let mut i: usize = 0;
        assert(all.take(0) =~= Seq::<Seq<char>>::empty());
        while i < lines.len()
            invariant
                i <= lines.len(),
                all == texts(lines@),
                reader.state() == key_value_fold(all.take(i as int)),
            decreases lines.len() - i,
        {
            let ghost upto = all.take(i + 1);
            assert(upto.drop_last() =~= all.take(i as int));
            assert(upto.last() == lines@[i as int]@);
            reader.step(&lines[i]);
            i += 1;
        }
        assert(all.take(lines.len() as int) =~= all);
        reader.flush();
        reader.fields
    }

    /// The speaker that the text of a speaker file describes; without the
    /// text, the file `filename` is reported as missing.
    pub fn load_speaker(content: &Option<String>, filename: &str) -> (r: Result<
        Speaker,
        DialogGenError,
    >)
        ensures
            match content {
                Some(text) => r matches Ok(speaker) && speaker.is_from(key_values(text@)),
                None => r matches Err(DialogGenError::MissingFile(name)) && name@ == filename@,
            },
    {
        match content {
            None => Err(DialogGenError::MissingFile(string_of(&chars_of(filename)))),
            Some(text) => {
                let fields = Self::parse_key_value(text.as_str());
                Ok(
                    Speaker {
                        name: text_of(&fields, "name"),
                        background: text_of(&fields, "background"),
                        personality: text_of(&fields, "personality"),
                        motivations: text_of(&fields, "motivations"),
                        speaking_style: text_of(&fields, "speaking style"),
                    },
                )
            },
        }
    }

    /// The director's notes that the text of the directions file holds.
    pub fn load_directions(content: &Option<String>) -> (r: Result<Directions, DialogGenError>)
        ensures
            match content {
                Some(text) => r matches Ok(directions) && directions.is_from(key_values(text@)),
                None => r matches Err(DialogGenError::MissingFile(name)) && name@
                    == "directions.txt"@,
            },
    {
        match content {
            None => Err(DialogGenError::MissingFile(string_of(&chars_of("directions.txt")))),
            Some(text) => {
                let fields = Self::parse_key_value(text.as_str());
                Ok(
                    Directions {
                        scene_name: text_of(&fields, "scene"),
                        setting: text_of(&fields, "setting"),
                        mood: text_of(&fields, "mood"),
                        goal: text_of(&fields, "goal"),
                        notes: text_of(&fields, "notes"),
                    },
                )
            },
        }
    }

    /// The scene that the text of the scene file describes. A turn count
    /// that is missing, or is no number that fits the machine word, is
    /// [`DEFAULT_TURNS`].
    pub fn load_scene(content: &Option<String>) -> (r: Result<Scene, DialogGenError>)
        ensures
            match content {
                Some(text) => r matches Ok(scene) && scene.is_from(key_values(text@)),
                None => r matches Err(DialogGenError::MissingFile(name)) && name@ == "scene.txt"@,
            },
    {
        match content {
            None => Err(DialogGenError::MissingFile(string_of(&chars_of("scene.txt")))),
            Some(text) => {
                let fields = Self::parse_key_value(text.as_str());
                let turns = match fields.get("turns") {
                    Some(t) => match parse_usize(&chars_of(t.as_str())) {
                        Some(n) => n,
                        None => DEFAULT_TURNS,
                    },
                    None => DEFAULT_TURNS,
                };
                Ok(Scene { turns, model: fields.get("model"), temperature: fields.get("temperature") })
            },
        }
    }

    /// The opening lines that the text of the prompt file holds: its
    /// dialog lines, in order.
    pub fn load_prompt(content: &Option<String>) -> (r: Result<Vec<DialogLine>, DialogGenError>)
        ensures
            match content {
                Some(text) => r matches Ok(lines) && line_views(lines@) == script_lines(
                    text@,
                    None,
                ),
                None => r matches Err(DialogGenError::MissingFile(name)) && name@ == "prompt.txt"@,
            },
    {
        match content {
            None => Err(DialogGenError::MissingFile(string_of(&chars_of("prompt.txt")))),
            Some(text) => {
                let lines = lines_of(&chars_of(text.as_str()));
                Ok(read_dialog_lines(&lines, None))
            },
        }
    }

    /// Whether the configuration is the one that `sources` describe.
    pub open spec fn is_from(&self, sources: ConfigSources) -> bool {
        &&& sources.speaker1 matches Some(text) && self.speaker1.is_from(key_values(text@))
        &&& sources.speaker2 matches Some(text) && self.speaker2.is_from(key_values(text@))
        &&& sources.directions matches Some(text) && self.directions.is_from(key_values(text@))
        &&& sources.prompt matches Some(text) && line_views(self.initial_lines@) == script_lines(
            text@,
            None,
        )
        &&& sources.scene matches Some(text) && self.scene.is_from(key_values(text@))
    }

    /// The name of the first file that `sources` lack, in the order in
    /// which the files are read.
    pub open spec fn first_missing(sources: ConfigSources) -> Option<Seq<char>> {
        if sources.speaker1 is None {
            Some("speaker1.txt"@)
        } else if sources.speaker2 is None {
            Some("speaker2.txt"@)
        } else if sources.directions is None {
            Some("directions.txt"@)
        } else if sources.prompt is None {
            Some("prompt.txt"@)
        } else if sources.scene is None {
            Some("scene.txt"@)
        } else {
            None
        }
    }

    /// The configuration that the five files describe. Where a file is
    /// missing, the first such file is reported and nothing is loaded.
    pub fn load(sources: &ConfigSources) -> (r: Result<DialogConfig, DialogGenError>)
        ensures
            match Self::first_missing(*sources) {
                Some(file) => r matches Err(DialogGenError::MissingFile(name)) && name@ == file,
                None => r matches Ok(config) && config.is_from(*sources),
            },
    {
        let speaker1 = match Self::load_speaker(&sources.speaker1, "speaker1.txt") {
            Ok(s) => s,
            Err(e) => {
                return Err(e);
            },
        };
        let speaker2 = match Self::load_speaker(&sources.speaker2, "speaker2.txt") {
            Ok(s) => s,
            Err(e) => {
                return Err(e);
            },
        };
        let directions = match Self::load_directions(&sources.directions) {
            Ok(d) => d,
            Err(e) => {
                return Err(e);
            },
        };
        let initial_lines = match Self::load_prompt(&sources.prompt) {
            Ok(l) => l,
            Err(e) => {
                return Err(e);
            },
        };
        let scene = match Self::load_scene(&sources.scene) {
            Ok(s) => s,
            Err(e) => {
                return Err(e);
            },
        };
        Ok(DialogConfig { speaker1, speaker2, directions, initial_lines, scene })
    }
}

} // verus!
