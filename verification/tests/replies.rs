use alliot::actions::{open_application, open_workspace};
use alliot::assistant::AssistantAction;
use alliot::commands::command_reply;
use alliot::voice::prepare_voice_command;

#[test]
fn browser_launch() {
    let request = open_application("browser").unwrap();
    assert_eq!(request.program, "explorer.exe");
    assert_eq!(request.args, vec!["https://www.google.com".to_string()]);
    assert_eq!(request.failure, "Не удалось открыть браузер: ");
}

#[test]
fn application_launch_paths() {
    let request = open_application("photoshop").unwrap();
    assert_eq!(request.program, r"C:\Program Files\Adobe\Adobe Photoshop CC 2019\Photoshop.exe");
    assert!(request.args.is_empty());
    assert_eq!(
        request.failure,
        r"Не удалось запустить C:\Program Files\Adobe\Adobe Photoshop CC 2019\Photoshop.exe: "
    );
    assert_eq!(
        open_application("discord").unwrap().program,
        r"C:\Users\alisa\AppData\Local\Discord\app-1.0.9255\Discord.exe"
    );
    assert_eq!(
        open_application("webstorm").unwrap().program,
        r"C:\Program Files\JetBrains\WebStorm 2024.3.2.1\bin\webstorm64.exe"
    );
    for name in ["illustrator", "blender", "spine", "figma"] {
        assert!(open_application(name).is_ok());
    }
}

#[test]
fn unknown_application_is_refused() {
    match open_application("notepad") {
        Err(error) => assert_eq!(error, "Неизвестное приложение: notepad"),
        Ok(_) => panic!("notepad must be refused"),
    }
}

#[test]
fn workspace_launches() {
    let requests = open_workspace();
    assert_eq!(requests.len(), 2);
    assert_eq!(requests[0].program, r"E:\Desktop\TgWsProxy_windows.exe");
    assert_eq!(requests[1].program, "powershell");
    assert_eq!(
        requests[1].args,
        vec![
            "-NoProfile".to_string(),
            "-Command".to_string(),
            r"Start-Process -FilePath 'E:\Desktop\zapret-discord-youtube-1.9.8b\general (ALT).bat' -Verb RunAs".to_string(),
        ]
    );
    assert_eq!(
        requests[1].failure,
        r"Не удалось запустить E:\Desktop\zapret-discord-youtube-1.9.8b\general (ALT).bat от имени администратора: "
    );
}

#[test]
fn replies_for_each_action() {
    let ok: Result<(), String> = Ok(());
    let failed: Result<(), String> = Err("нет файла".to_string());
    assert_eq!(command_reply(&AssistantAction::Respond("Привет".to_string()), &ok), "Привет");
    assert_eq!(
        command_reply(&AssistantAction::OpenApplication("figma".to_string()), &ok),
        "Открываю: figma"
    );
    assert_eq!(
        command_reply(&AssistantAction::OpenApplication("figma".to_string()), &failed),
        "Ошибка открытия figma: нет файла"
    );
    assert_eq!(command_reply(&AssistantAction::OpenWorkspace, &ok), "Щиты подняты");
    assert_eq!(
        command_reply(&AssistantAction::OpenWorkspace, &failed),
        "Ошибка workspace: нет файла"
    );
    assert_eq!(
        command_reply(&AssistantAction::Unknown("полёт".to_string()), &ok),
        "Я пока не знаю такую команду: полёт"
    );
}

#[test]
fn blank_voice_command_does_nothing() {
    assert!(prepare_voice_command("   ").is_none());
    assert!(prepare_voice_command("").is_none());
}

#[test]
fn voice_command_is_parsed_trimmed() {
    match prepare_voice_command("  аллиот открой дискорд ") {
        Some(AssistantAction::OpenApplication(name)) => assert_eq!(name, "discord"),
        other => panic!("unexpected {:?}", other),
    }
}
