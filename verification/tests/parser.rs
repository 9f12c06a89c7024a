use alliot::assistant::{process_command, AssistantAction};
use alliot::command_parser::{parse_command, remove_wake_word, Application};

fn open_app(text: &str) -> Option<String> {
    match process_command(text) {
        AssistantAction::OpenApplication(name) => Some(name),
        _ => None,
    }
}

fn unknown(text: &str) -> Option<String> {
    match parse_command(text) {
        AssistantAction::Unknown(command) => Some(command),
        _ => None,
    }
}

fn respond(text: &str) -> Option<String> {
    match parse_command(text) {
        AssistantAction::Respond(reply) => Some(reply),
        _ => None,
    }
}

#[test]
fn opens_photoshop_after_wake_word() {
    assert_eq!(open_app("Аллиот, открой Фотошоп!"), Some("photoshop".to_string()));
}

#[test]
fn opens_each_application() {
    assert_eq!(open_app("запусти иллюстратор"), Some("illustrator".to_string()));
    assert_eq!(open_app("открой blender"), Some("blender".to_string()));
    assert_eq!(open_app("включи спайн"), Some("spine".to_string()));
    assert_eq!(open_app("открой дискорд"), Some("discord".to_string()));
    assert_eq!(open_app("открой фигму"), Some("figma".to_string()));
    assert_eq!(open_app("открой web storm"), Some("webstorm".to_string()));
    assert_eq!(open_app("алед включи хром"), Some("browser".to_string()));
}

#[test]
fn photoshop_is_checked_before_browser() {
    assert_eq!(open_app("открой фотошоп и браузер"), Some("photoshop".to_string()));
}

#[test]
fn yo_is_read_as_ye() {
    // "алёд" becomes "алед", which is a wake word of the parser.
    assert_eq!(open_app("Алёд, открой браузер"), Some("browser".to_string()));
}

#[test]
fn open_without_application_is_unknown() {
    assert_eq!(unknown("открой что-нибудь"), Some("открой что нибудь".to_string()));
}

#[test]
fn shields_open_the_workspace() {
    assert!(matches!(process_command("Аллиот, подними щиты"), AssistantAction::OpenWorkspace));
    assert!(matches!(process_command("щиты поднять!"), AssistantAction::OpenWorkspace));
}

#[test]
fn greeting_and_farewell_replies() {
    assert_eq!(respond("аллиот привет"), Some("Привет. Я Alliot.".to_string()));
    assert_eq!(respond("Hello!"), Some("Привет. Я Alliot.".to_string()));
    assert_eq!(respond("спокойной ночи"), Some("До встречи.".to_string()));
    assert_eq!(respond("goodbye"), Some("До встречи.".to_string()));
}

#[test]
fn only_wake_word_is_unknown_empty() {
    assert_eq!(unknown("Аллиот"), Some(String::new()));
    assert_eq!(unknown(""), Some(String::new()));
    assert_eq!(unknown(" ... "), Some(String::new()));
}

#[test]
fn unrecognised_text_is_unknown() {
    assert_eq!(unknown("Какая погода?"), Some("какая погода".to_string()));
}

#[test]
fn remove_wake_word_cuts_first_word_only() {
    assert_eq!(remove_wake_word("Аллиот,   открой   Blender"), "открой blender");
    assert_eq!(remove_wake_word("привет аллиот"), "привет аллиот");
    assert_eq!(remove_wake_word("эллиот"), "");
    assert_eq!(remove_wake_word(""), "");
    assert_eq!(remove_wake_word("АЛИОД!!! запусти"), "запусти");
}

#[test]
fn remove_wake_word_output_is_collapsed() {
    let out = remove_wake_word("  Аллиот   раз,  два;три  ");
    assert_eq!(out, "раз два три");
    assert!(!out.starts_with(' ') && !out.ends_with(' ') && !out.contains("  "));
}

#[test]
fn application_names() {
    assert_eq!(Application::Browser.as_str(), "browser");
    assert_eq!(Application::Photoshop.as_str(), "photoshop");
    assert_eq!(Application::Illustrator.as_str(), "illustrator");
    assert_eq!(Application::Blender.as_str(), "blender");
    assert_eq!(Application::Spine.as_str(), "spine");
    assert_eq!(Application::Discord.as_str(), "discord");
    assert_eq!(Application::Figma.as_str(), "figma");
    assert_eq!(Application::WebStorm.as_str(), "webstorm");
}

#[test]
fn parsed_applications_can_be_opened() {
    for text in ["открой фотошоп", "открой браузер", "запусти блендер", "открой вебшторм"] {
        let name = open_app(text).unwrap();
        assert!(alliot::actions::open_application(&name).is_ok());
    }
}
