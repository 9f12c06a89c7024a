//! The text command parser: a transcript becomes an `AssistantAction`.
//!
//! The transcript is normalised (lowercase, `ё` as `е`, symbols as spaces,
//! whitespace collapsed), a leading wake word is cut off, and keyword lists
//! decide the intent and, for "open", the application.
use vstd::prelude::*;

use crate::assistant::{ActionView, AssistantAction};
use crate::text::{
    blank_symbols, chars_of, contains, fold_yo_chars, lowercase_chars, normalized, occurs_in,
    squeeze, squeeze_chars, string_from_chars, whitespace, is_whitespace, is_squeezed,
    lemma_normalized_is_squeezed, lemma_squeeze_is_squeezed,
};
use crate::actions::application_launch;

verus! {

broadcast use vstd::string::group_string_axioms;

/// What the user wants.
#[derive(Debug, Clone, Copy, PartialEq, Eq, Structural)]
pub enum CommandIntent {
    Respond,
    Open,
    Workspace,
}

/// The applications the assistant can open.
#[derive(Debug, Clone, Copy, PartialEq, Eq, Structural)]
pub enum Application {
    Browser,
    Photoshop,
    Illustrator,
    Blender,
    Spine,
    Discord,
    Figma,
    WebStorm,
}

/// The internal name of an application.
pub open spec fn application_name(a: Application) -> Seq<char> {
    match a {
        Application::Browser => "browser"@,
        Application::Photoshop => "photoshop"@,
        Application::Illustrator => "illustrator"@,
        Application::Blender => "blender"@,
        Application::Spine => "spine"@,
        Application::Discord => "discord"@,
        Application::Figma => "figma"@,
        Application::WebStorm => "webstorm"@,
    }
}

impl Application {
    /// The internal name of the application.
    pub fn as_str(self) -> (s: &'static str)
        ensures
            s@ == application_name(self),
    {
        match self {
            Application::Browser => "browser",
            Application::Photoshop => "photoshop",
            Application::Illustrator => "illustrator",
            Application::Blender => "blender",
            Application::Spine => "spine",
            Application::Discord => "discord",
            Application::Figma => "figma",
            Application::WebStorm => "webstorm",
        }
    }
}

// ------------------------------------------------------------------
// Keyword lists
// ------------------------------------------------------------------

/// Stems of "open", "launch" and "switch on".
pub open spec fn open_words() -> Seq<Seq<char>> {
    seq!["откр"@, "отскр"@, "запуст"@, "включ"@, "ключ"@]
}

/// "Raise the shields": open the working environment.
pub open spec fn shield_words() -> Seq<Seq<char>> {
    seq![
        "поднять щиты"@,
        "подними щиты"@,
        "поднимай щиты"@,
        "поднять щит"@,
        "подними щит"@,
        "щиты поднять"@,
    ]
}

/// Greetings.
pub open spec fn greeting_words() -> Seq<Seq<char>> {
    seq!["привет"@, "ку"@, "hello"@, "хелло"@]
}

/// Farewells.
pub open spec fn farewell_words() -> Seq<Seq<char>> {
    seq!["спокойной ночи"@, "давай пока"@, "пока"@, "bye"@, "goodbye"@]
}

/// The spellings by which each application is recognised.
pub open spec fn application_words(a: Application) -> Seq<Seq<char>> {
    match a {
        Application::Photoshop => seq!["фотошоп"@, "фотош"@, "фото шоп"@, "photoshop"@, "photosho"@],
        Application::Illustrator => seq![
            "иллюстратор"@,
            "илюстратор"@,
            "иллюстрат"@,
            "илюстрат"@,
            "illustrator"@,
            "illustrato"@,
        ],
        Application::Blender => seq!["блендер"@, "бленд"@, "блэндер"@, "blender"@],
        Application::Spine => seq!["спайн"@, "спай"@, "spine"@],
        Application::Discord => seq!["дискорд"@, "дискор"@, "discord"@],
        Application::Figma => seq!["фигма"@, "фигм"@, "figma"@],
        Application::WebStorm => seq![
            "вебшторм"@,
            "веб штор"@,
            "вебштор"@,
            "webstorm"@,
            "web storm"@,
        ],
        Application::Browser => seq!["браузер"@, "брауз"@, "browser"@, "chrome"@, "хром"@],
    }
}

/// The wake words that may open a command.
pub open spec fn command_wake_words() -> Seq<Seq<char>> {
    seq!["аллиот"@, "алиот"@, "аллиод"@, "алиод"@, "алет"@, "алед"@, "элиот"@, "эллиот"@]
}

/// The characters of each string of a list.
pub open spec fn list_view(list: Seq<&str>) -> Seq<Seq<char>> {
    list.map_values(|v: &str| v@)
}

// ------------------------------------------------------------------
// Specification of the parser
// ------------------------------------------------------------------

/// One of the variants occurs somewhere in the text.
pub open spec fn mentions_any(text: Seq<char>, variants: Seq<Seq<char>>) -> bool {
    exists|k: int| 0 <= k < variants.len() && occurs_in(text, #[trigger] variants[k])
}

/// The intent of a command: "open" words first, then the shield phrase,
/// then greetings and farewells.
pub open spec fn intent_of(text: Seq<char>) -> Option<CommandIntent> {
    if mentions_any(text, open_words()) {
        Some(CommandIntent::Open)
    } else if mentions_any(text, shield_words()) {
        Some(CommandIntent::Workspace)
    } else if mentions_any(text, greeting_words()) {
        Some(CommandIntent::Respond)
    } else if mentions_any(text, farewell_words()) {
        Some(CommandIntent::Respond)
    } else {
        None
    }
}

/// The application a command names, checked in this order: Photoshop,
/// Illustrator, Blender, Spine, Discord, Figma, WebStorm, browser.
pub open spec fn application_of(text: Seq<char>) -> Option<Application> {
    if mentions_any(text, application_words(Application::Photoshop)) {
        Some(Application::Photoshop)
    } else if mentions_any(text, application_words(Application::Illustrator)) {
        Some(Application::Illustrator)
    } else if mentions_any(text, application_words(Application::Blender)) {
        Some(Application::Blender)
    } else if mentions_any(text, application_words(Application::Spine)) {
        Some(Application::Spine)
    } else if mentions_any(text, application_words(Application::Discord)) {
        Some(Application::Discord)
    } else if mentions_any(text, application_words(Application::Figma)) {
        Some(Application::Figma)
    } else if mentions_any(text, application_words(Application::WebStorm)) {
        Some(Application::WebStorm)
    } else if mentions_any(text, application_words(Application::Browser)) {
        Some(Application::Browser)
    } else {
        None
    }
}

/// The reply to a greeting or a farewell; anything else is not understood.
pub open spec fn response_of(text: Seq<char>) -> ActionView {
    if mentions_any(text, greeting_words()) {
        ActionView::Respond("Привет. Я Alliot."@)
    } else if mentions_any(text, farewell_words()) {
        ActionView::Respond("До встречи."@)
    } else {
        ActionView::Unknown(text)
    }
}

/// The position of the first whitespace character at or after `i`, or the
/// length of `s` when there is none.
pub open spec fn word_end(s: Seq<char>, i: int) -> int
    decreases s.len() - i,
{
    if i >= s.len() {
        s.len() as int
    } else if whitespace(s[i]) {
        i
    } else {
        word_end(s, i + 1)
    }
}

/// A normalised command without its leading wake word: empty when the text
/// has no words; the remaining words joined by spaces when the first word is
/// a wake word; the text itself otherwise. Normalised text never starts with
/// whitespace, so its first word ends at `word_end(n, 0)`.
pub open spec fn strip_wake_word(n: Seq<char>) -> Seq<char> {
    if n.len() == 0 {
        seq![]
    } else if command_wake_words().contains(n.take(word_end(n, 0))) {
        squeeze(n.skip(word_end(n, 0)))
    } else {
        n
    }
}

/// The action for a cleaned command without wake word.
pub open spec fn action_for(t: Seq<char>) -> ActionView {
    if t.len() == 0 {
        ActionView::Unknown(seq![])
    } else {
        match intent_of(t) {
            Some(CommandIntent::Open) => match application_of(t) {
                Some(a) => ActionView::OpenApplication(application_name(a)),
                None => ActionView::Unknown(t),
            },
            Some(CommandIntent::Workspace) => ActionView::OpenWorkspace,
            Some(CommandIntent::Respond) => response_of(t),
            None => ActionView::Unknown(t),
        }
    }
}

/// The action the parser chooses for a transcript.
pub open spec fn parsed_action(text: Seq<char>) -> ActionView {
    action_for(strip_wake_word(normalized(text)))
}

// ------------------------------------------------------------------
// Implementation
// ------------------------------------------------------------------

/// Brings Whisper's text to one form: lowercase, `ё` as `е`, every symbol
/// that is neither a letter, a digit nor whitespace as a space, and
/// whitespace collapsed to single spaces.
fn normalize_text(text: &str) -> (r: Vec<char>)
    ensures
        r@ == normalized(text@),
{
    let lower = lowercase_chars(text);
    let folded = fold_yo_chars(&lower);
    let cleaned = blank_symbols(&folded);
    squeeze_chars(&cleaned)
}

/// Whether one of the variants occurs in the text.
fn contains_any(text: &Vec<char>, variants: &[&str]) -> (r: bool)
    ensures
        r == mentions_any(text@, list_view(variants@)),
{
    let ghost vs = list_view(variants@);
    let mut k: usize = 0;
    while k < variants.len()
        invariant
            k <= variants.len(),
            vs == list_view(variants@),
            forall|j: int| 0 <= j < k ==> !occurs_in(text@, #[trigger] vs[j]),
        decreases variants.len() - k,
    {
        let v = chars_of(variants[k]);
        assert(vs[k as int] == v@);
        if contains(text, &v) {
            return true;
        }
        k = k + 1;
    }
    false
}

fn open_list() -> (r: &'static [&'static str])
    ensures
        list_view(r@) == open_words(),
{
    let r: &'static [&'static str] = &["откр", "отскр", "запуст", "включ", "ключ"];
    assert(list_view(r@) =~= open_words());
    r
}

fn shield_list() -> (r: &'static [&'static str])
    ensures
        list_view(r@) == shield_words(),
{
    let r: &'static [&'static str] = &[
        "поднять щиты",
        "подними щиты",
        "поднимай щиты",
        "поднять щит",
        "подними щит",
        "щиты поднять",
    ];
    assert(list_view(r@) =~= shield_words());
    r
}

fn greeting_list() -> (r: &'static [&'static str])
    ensures
        list_view(r@) == greeting_words(),
{
    let r: &'static [&'static str] = &["привет", "ку", "hello", "хелло"];
    assert(list_view(r@) =~= greeting_words());
    r
}

fn farewell_list() -> (r: &'static [&'static str])
    ensures
        list_view(r@) == farewell_words(),
{
    let r: &'static [&'static str] = &["спокойной ночи", "давай пока", "пока", "bye", "goodbye"];
    assert(list_view(r@) =~= farewell_words());
    r
}

fn application_list(a: Application) -> (r: &'static [&'static str])
    ensures
        list_view(r@) == application_words(a),
{
    let r: &'static [&'static str] = match a {
        Application::Photoshop => &["фотошоп", "фотош", "фото шоп", "photoshop", "photosho"],
        Application::Illustrator => &[
            "иллюстратор",
            "илюстратор",
            "иллюстрат",
            "илюстрат",
            "illustrator",
            "illustrato",
        ],
        Application::Blender => &["блендер", "бленд", "блэндер", "blender"],
        Application::Spine => &["спайн", "спай", "spine"],
        Application::Discord => &["дискорд", "дискор", "discord"],
        Application::Figma => &["фигма", "фигм", "figma"],
        Application::WebStorm => &["вебшторм", "веб штор", "вебштор", "webstorm", "web storm"],
        Application::Browser => &["браузер", "брауз", "browser", "chrome", "хром"],
    };
    assert(list_view(r@) =~= application_words(a));
    r
}

fn wake_word_list() -> (r: &'static [&'static str])
    ensures
        list_view(r@) == command_wake_words(),
{
    let r: &'static [&'static str] = &[
        "аллиот",
        "алиот",
        "аллиод",
        "алиод",
        "алет",
        "алед",
        "элиот",
        "эллиот",
    ];
    assert(list_view(r@) =~= command_wake_words());
    r
}

/// Determines what the user wants.
fn extract_intent(text: &Vec<char>) -> (r: Option<CommandIntent>)
    ensures
        r == intent_of(text@),
{
    if contains_any(text, open_list()) {
        return Some(CommandIntent::Open);
    }
    if contains_any(text, shield_list()) {
        return Some(CommandIntent::Workspace);
    }
    if contains_any(text, greeting_list()) {
        return Some(CommandIntent::Respond);
    }
    if contains_any(text, farewell_list()) {
        return Some(CommandIntent::Respond);
    }
    None
}

/// Determines which application the text names.
fn extract_application(text: &Vec<char>) -> (r: Option<Application>)
    ensures
        r == application_of(text@),
{
    if contains_any(text, application_list(Application::Photoshop)) {
        return Some(Application::Photoshop);
    }
    if contains_any(text, application_list(Application::Illustrator)) {
        return Some(Application::Illustrator);
    }
    if contains_any(text, application_list(Application::Blender)) {
        return Some(Application::Blender);
    }
    if contains_any(text, application_list(Application::Spine)) {
        return Some(Application::Spine);
    }
    if contains_any(text, application_list(Application::Discord)) {
        return Some(Application::Discord);
    }
    if contains_any(text, application_list(Application::Figma)) {
        return Some(Application::Figma);
    }
    if contains_any(text, application_list(Application::WebStorm)) {
        return Some(Application::WebStorm);
    }
    if contains_any(text, application_list(Application::Browser)) {
        return Some(Application::Browser);
    }
    None
}

/// The reply to a text command whose intent is to talk.
fn build_response(text: &Vec<char>) -> (r: AssistantAction)
    ensures
        r@ == response_of(text@),
{
    if contains_any(text, greeting_list()) {
        return AssistantAction::Respond("Привет. Я Alliot.".to_string());
    }
    if contains_any(text, farewell_list()) {
        return AssistantAction::Respond("До встречи.".to_string());
    }
    AssistantAction::Unknown(string_from_chars(text))
}

/// Whether `word` is one of the strings of `list`.
fn is_one_of(word: &Vec<char>, list: &[&str]) -> (r: bool)
    ensures
        r == list_view(list@).contains(word@),
{
    let ghost vs = list_view(list@);
    let mut k: usize = 0;
    while k < list.len()
        invariant
            k <= list.len(),
            vs == list_view(list@),
            forall|j: int| 0 <= j < k ==> #[trigger] vs[j] != word@,
        decreases list.len() - k,
    {
        let v = chars_of(list[k]);
        assert(vs[k as int] == v@);
        if v.len() == word.len() {
            let mut i: usize = 0;
            let mut same: bool = true;
            while i < v.len()
                invariant
                    i <= v.len(),
                    v.len() == word.len(),
                    same == (forall|x: int| 0 <= x < i ==> v@[x] == word@[x]),
                decreases v.len() - i,
            {
                if v[i] != word[i] {
                    same = false;
                }
                i = i + 1;
            }
            if same {
                assert(v@ =~= word@);
                return true;
            }
        }
        k = k + 1;
    }
    false
}

/// Cuts a wake word off the start of a command; the text comes back
/// normalised.
pub fn remove_wake_word(text: &str) -> (r: String)
    ensures
        r@ == strip_wake_word(normalized(text@)),
{
    let normalized_text = normalize_text(text);
    if normalized_text.len() == 0 {
        return string_from_chars(&normalized_text);
    }
    let ghost n = normalized_text@;
    let mut j: usize = 0;
    while j < normalized_text.len() && !is_whitespace(normalized_text[j])
        invariant
            j <= n.len(),
            n == normalized_text@,
            word_end(n, 0) == word_end(n, j as int),
        decreases n.len() - j,
    {
        j = j + 1;
    }
    let mut first: Vec<char> = Vec::new();
    let mut rest: Vec<char> = Vec::new();
    let mut k: usize = 0;
    while k < normalized_text.len()
        invariant
            j <= n.len(),
            n == normalized_text@,
            k <= n.len(),
            k <= j ==> first@ == n.take(k as int) && rest@ == Seq::<char>::empty(),
            k > j ==> first@ == n.take(j as int) && rest@ == n.subrange(j as int, k as int),
        decreases n.len() - k,
    {
        if k < j {
            first.push(normalized_text[k]);
            assert(n.take(k as int + 1) =~= n.take(k as int).push(n[k as int]));
        } else {
            rest.push(normalized_text[k]);
            assert(n.subrange(j as int, k as int + 1) =~= n.subrange(j as int, k as int).push(
                n[k as int],
            ));
        }
        k = k + 1;
    }
    assert(first@ =~= n.take(word_end(n, 0)));
    assert(rest@ =~= n.skip(word_end(n, 0)));
    if is_one_of(&first, wake_word_list()) {
        string_from_chars(&squeeze_chars(&rest))
    } else {
        string_from_chars(&normalized_text)
    }
}

/// The main parser: wake word cut off, intent found, application or reply
/// chosen.
pub fn parse_command(text: &str) -> (r: AssistantAction)
    ensures
        r@ == parsed_action(text@),
{
    let stripped = remove_wake_word(text);
    let t = chars_of(stripped.as_str());
    if t.len() == 0 {
        return AssistantAction::Unknown(String::new());
    }
    match extract_intent(&t) {
        Some(CommandIntent::Open) => match extract_application(&t) {
            Some(application) => AssistantAction::OpenApplication(
                application.as_str().to_string(),
            ),
            None => AssistantAction::Unknown(stripped),
        },
        Some(CommandIntent::Workspace) => AssistantAction::OpenWorkspace,
        Some(CommandIntent::Respond) => build_response(&t),
        None => AssistantAction::Unknown(stripped),
    }
}

// ------------------------------------------------------------------
// Laws
// ------------------------------------------------------------------

/// The command left after the wake word is cut off is in collapsed form.
pub proof fn lemma_stripped_command_is_squeezed(text: Seq<char>)
    ensures
        is_squeezed(strip_wake_word(normalized(text))),
{
    lemma_normalized_is_squeezed(text);
    let n = normalized(text);
    lemma_squeeze_is_squeezed(n.skip(word_end(n, 0)));
}

/// Every "open" stem has at least one character.
proof fn lemma_open_words_nonempty()
    ensures
        forall|k: int| 0 <= k < open_words().len() ==> #[trigger] open_words()[k].len() > 0,
{
    reveal_strlit("откр");
    reveal_strlit("отскр");
    reveal_strlit("запуст");
    reveal_strlit("включ");
    reveal_strlit("ключ");
}

/// An "open" stem decides the intent, whatever greetings, farewells or
/// shield phrases the command also holds: a command (after the wake word is
/// cut off) that contains an open stem has the intent Open, and when it also
/// names an application, the parser opens that application.
pub proof fn lemma_open_stem_wins(text: Seq<char>)
    ensures
        ({
            let c = strip_wake_word(normalized(text));
            &&& mentions_any(c, open_words()) ==> intent_of(c) == Some(CommandIntent::Open)
            &&& forall|a: Application|
                mentions_any(c, open_words()) && #[trigger] application_of(c) == Some(a)
                    ==> parsed_action(text) == ActionView::OpenApplication(application_name(a))
        }),
{
    let c = strip_wake_word(normalized(text));
    if mentions_any(c, open_words()) {
        lemma_open_words_nonempty();
        let k = choose|k: int| 0 <= k < open_words().len() && occurs_in(c, #[trigger] open_words()[k]);
        assert(open_words()[k].len() > 0);
        assert(c.len() > 0);
    }
}

/// Every application the parser asks to open is one that can be opened.
pub proof fn lemma_parsed_applications_open(text: Seq<char>)
    ensures
        parsed_action(text) matches ActionView::OpenApplication(name) ==> application_launch(
            name,
        ) is Ok,
{
}

} // verus!
