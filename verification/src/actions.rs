//! Which program each action starts. The caller spawns the program with the
//! arguments given here; if spawning fails, the user is told `failure`
//! followed by the system's error text.
use vstd::prelude::*;

use crate::command_parser::{application_name, Application};
use crate::text::{chars_of, concat_all, concat_views, same_chars};

verus! {

/// A program to start.
pub struct LaunchRequest {
    /// The program's path or name.
    pub program: String,
    /// Its command-line arguments.
    pub args: Vec<String>,
    /// What the user is told, before the system's error text, when the
    /// program cannot be started.
    pub failure: String,
}

/// The model of a `LaunchRequest`.
pub struct LaunchView {
    pub program: Seq<char>,
    pub args: Seq<Seq<char>>,
    pub failure: Seq<char>,
}

impl View for LaunchRequest {
    type V = LaunchView;

    open spec fn view(&self) -> LaunchView {
        LaunchView {
            program: self.program@,
            args: self.args@.map_values(|a: String| a@),
            failure: self.failure@,
        }
    }
}

/// Starting a program directly.
pub open spec fn plain_launch(path: Seq<char>) -> LaunchView {
    LaunchView {
        program: path,
        args: seq![],
        failure: "Не удалось запустить "@ + path + ": "@,
    }
}

/// Starting a program through PowerShell with the administrator prompt.
pub open spec fn admin_launch(path: Seq<char>) -> LaunchView {
    LaunchView {
        program: "powershell"@,
        args: seq![
            "-NoProfile"@,
            "-Command"@,
            "Start-Process -FilePath '"@ + path + "' -Verb RunAs"@,
        ],
        failure: "Не удалось запустить "@ + path + " от имени администратора: "@,
    }
}

/// The browser: Google's start page opened through the Explorer.
pub open spec fn browser_launch() -> LaunchView {
    LaunchView {
        program: "explorer.exe"@,
        args: seq!["https://www.google.com"@],
        failure: "Не удалось открыть браузер: "@,
    }
}

/// Where each application is installed.
pub open spec fn installed_path(application: Seq<char>) -> Option<Seq<char>> {
    if application == "photoshop"@ {
        Some(r"C:\Program Files\Adobe\Adobe Photoshop CC 2019\Photoshop.exe"@)
    } else if application == "illustrator"@ {
        Some(
            r"C:\Program Files\Adobe\Adobe Illustrator 2024\Support Files\Contents\Windows\Illustrator.exe"@,
        )
    } else if application == "blender"@ {
        Some(r"C:\Program Files\Blender Foundation\Blender 5.2\blender-launcher.exe"@)
    } else if application == "spine"@ {
        Some(r"E:\Downloads\Spine Pro v3.8.75 (WIN)\Setup\Spine.exe"@)
    } else if application == "discord"@ {
        Some(r"C:\Users\alisa\AppData\Local\Discord\app-1.0.9255\Discord.exe"@)
    } else if application == "figma"@ {
        Some(r"C:\Users\alisa\AppData\Local\Figma\app-126.8.16\Figma.exe"@)
    } else if application == "webstorm"@ {
        Some(r"C:\Program Files\JetBrains\WebStorm 2024.3.2.1\bin\webstorm64.exe"@)
    } else {
        None
    }
}

/// How an application is opened, or the error for an unknown one.
pub open spec fn application_launch(application: Seq<char>) -> Result<LaunchView, Seq<char>> {
    if application == "browser"@ {
        Ok(browser_launch())
    } else {
        match installed_path(application) {
            Some(path) => Ok(plain_launch(path)),
            None => Err("Неизвестное приложение: "@ + application),
        }
    }
}

/// The programs that make up the working environment, started in order;
/// the first that fails stops the rest.
pub open spec fn workspace_launches() -> Seq<LaunchView> {
    seq![
        plain_launch(r"E:\Desktop\TgWsProxy_windows.exe"@),
        admin_launch(r"E:\Desktop\zapret-discord-youtube-1.9.8b\general (ALT).bat"@),
    ]
}

/// Starts a program directly.
fn launch(path: &str) -> (r: LaunchRequest)
    ensures
        r@ == plain_launch(path@),
{
    let failure = concat_all(&["Не удалось запустить ", path, ": "]);
    proof {
        reveal_with_fuel(concat_views, 4);
    }
    let args: Vec<String> = Vec::new();
    let r = LaunchRequest { program: concat_all(&[path]), args, failure };
    assert(r@.args =~= Seq::<Seq<char>>::empty());
    r
}

/// Starts a program with the administrator prompt.
fn launch_as_admin(path: &str) -> (r: LaunchRequest)
    ensures
        r@ == admin_launch(path@),
{
    proof {
        reveal_with_fuel(concat_views, 4);
    }
    let failure = concat_all(&["Не удалось запустить ", path, " от имени администратора: "]);
    let mut args: Vec<String> = Vec::new();
    args.push(concat_all(&["-NoProfile"]));
    args.push(concat_all(&["-Command"]));
    args.push(concat_all(&["Start-Process -FilePath '", path, "' -Verb RunAs"]));
    let r = LaunchRequest { program: concat_all(&["powershell"]), args, failure };
    assert(r@.args =~= admin_launch(path@).args);
    r
}

/// Whether `text` is `literal`.
fn is(text: &Vec<char>, literal: &str) -> (r: bool)
    ensures
        r == (text@ == literal@),
{
    let l = chars_of(literal);
    same_chars(text, &l)
}

/// How to open an application by its internal name.
pub fn open_application(application: &str) -> (r: Result<LaunchRequest, String>)
    ensures
        match r {
            Ok(req) => application_launch(application@) == Ok::<LaunchView, Seq<char>>(req@),
            Err(e) => application_launch(application@) == Err::<LaunchView, Seq<char>>(e@),
        },
{
    proof {
        reveal_with_fuel(concat_views, 4);
    }
    let name = chars_of(application);
    if is(&name, "browser") {
        let mut args: Vec<String> = Vec::new();
        args.push(concat_all(&["https://www.google.com"]));
        let r = LaunchRequest {
            program: concat_all(&["explorer.exe"]),
            args,
            failure: concat_all(&["Не удалось открыть браузер: "]),
        };
        assert(r@.args =~= browser_launch().args);
        return Ok(r);
    }
    if is(&name, "photoshop") {
        return Ok(launch(r"C:\Program Files\Adobe\Adobe Photoshop CC 2019\Photoshop.exe"));
    }
    if is(&name, "illustrator") {
        return Ok(
            launch(
                r"C:\Program Files\Adobe\Adobe Illustrator 2024\Support Files\Contents\Windows\Illustrator.exe",
            ),
        );
    }
    if is(&name, "blender") {
        return Ok(launch(r"C:\Program Files\Blender Foundation\Blender 5.2\blender-launcher.exe"));
    }
    if is(&name, "spine") {
        return Ok(launch(r"E:\Downloads\Spine Pro v3.8.75 (WIN)\Setup\Spine.exe"));
    }
    if is(&name, "discord") {
        return Ok(launch(r"C:\Users\alisa\AppData\Local\Discord\app-1.0.9255\Discord.exe"));
    }
    if is(&name, "figma") {
        return Ok(launch(r"C:\Users\alisa\AppData\Local\Figma\app-126.8.16\Figma.exe"));
    }
    if is(&name, "webstorm") {
        return Ok(launch(r"C:\Program Files\JetBrains\WebStorm 2024.3.2.1\bin\webstorm64.exe"));
    }
    Err(concat_all(&["Неизвестное приложение: ", application]))
}

/// The programs that open the working environment, in order.
pub fn open_workspace() -> (r: Vec<LaunchRequest>)
    ensures
        r@.map_values(|q: LaunchRequest| q@) == workspace_launches(),
{
    let mut r: Vec<LaunchRequest> = Vec::new();
    r.push(launch(r"E:\Desktop\TgWsProxy_windows.exe"));
    r.push(launch_as_admin(r"E:\Desktop\zapret-discord-youtube-1.9.8b\general (ALT).bat"));
    assert(r@.map_values(|q: LaunchRequest| q@) =~= workspace_launches());
    r
}

/// Every application but the browser is started directly, from its own
/// installed executable: an application name other than "browser" that is
/// accepted gives a request whose program is not the Explorer, with no
/// arguments, and whose failure text names that program; "browser" opens
/// Google's page through the Explorer; and each application the parser
/// knows gets its own executable.
pub proof fn lemma_applications_start_their_own_executable(application: Seq<char>, a: Application)
    ensures
        application_launch(application) matches Ok(v) ==> (application == "browser"@
            <==> v.program == "explorer.exe"@),
        application != "browser"@ ==> (application_launch(application) matches Ok(v) ==> {
            &&& v.program != "explorer.exe"@
            &&& v.args.len() == 0
            &&& v.failure == "Не удалось запустить "@ + v.program + ": "@
        }),
        application_launch("browser"@) == Ok::<LaunchView, Seq<char>>(browser_launch()),
        a != Application::Browser ==> (application_launch(application_name(a)) matches Ok(v)
            && v.args.len() == 0 && v.program == (match a {
                Application::Photoshop => r"C:\Program Files\Adobe\Adobe Photoshop CC 2019\Photoshop.exe"@,
                Application::Illustrator => r"C:\Program Files\Adobe\Adobe Illustrator 2024\Support Files\Contents\Windows\Illustrator.exe"@,
                Application::Blender => r"C:\Program Files\Blender Foundation\Blender 5.2\blender-launcher.exe"@,
                Application::Spine => r"E:\Downloads\Spine Pro v3.8.75 (WIN)\Setup\Spine.exe"@,
                Application::Discord => r"C:\Users\alisa\AppData\Local\Discord\app-1.0.9255\Discord.exe"@,
                Application::Figma => r"C:\Users\alisa\AppData\Local\Figma\app-126.8.16\Figma.exe"@,
                Application::WebStorm => r"C:\Program Files\JetBrains\WebStorm 2024.3.2.1\bin\webstorm64.exe"@,
                Application::Browser => "explorer.exe"@,
            })),
{
    reveal_strlit("browser");
    reveal_strlit("photoshop");
    reveal_strlit("illustrator");
    reveal_strlit("blender");
    reveal_strlit("spine");
    reveal_strlit("discord");
    reveal_strlit("figma");
    reveal_strlit("webstorm");
    reveal_strlit(r"C:\Program Files\Adobe\Adobe Photoshop CC 2019\Photoshop.exe");
    reveal_strlit(r"C:\Program Files\Adobe\Adobe Illustrator 2024\Support Files\Contents\Windows\Illustrator.exe");
    reveal_strlit(r"C:\Program Files\Blender Foundation\Blender 5.2\blender-launcher.exe");
    reveal_strlit(r"E:\Downloads\Spine Pro v3.8.75 (WIN)\Setup\Spine.exe");
    reveal_strlit(r"C:\Users\alisa\AppData\Local\Discord\app-1.0.9255\Discord.exe");
    reveal_strlit(r"C:\Users\alisa\AppData\Local\Figma\app-126.8.16\Figma.exe");
    reveal_strlit(r"C:\Program Files\JetBrains\WebStorm 2024.3.2.1\bin\webstorm64.exe");
    reveal_strlit("explorer.exe");
    match a {
        Application::Browser => {},
        Application::Photoshop => {
            assert("photoshop"@.len() != "browser"@.len() || "photoshop"@[0] != "browser"@[0] || "photoshop"@[1] != "browser"@[1]);
        },
        Application::Illustrator => {
            assert("illustrator"@.len() != "browser"@.len() || "illustrator"@[0] != "browser"@[0] || "illustrator"@[1] != "browser"@[1]);
            assert("illustrator"@.len() != "photoshop"@.len() || "illustrator"@[0] != "photoshop"@[0] || "illustrator"@[1] != "photoshop"@[1]);
        },
        Application::Blender => {
            assert("blender"@.len() != "browser"@.len() || "blender"@[0] != "browser"@[0] || "blender"@[1] != "browser"@[1]);
            assert("blender"@.len() != "photoshop"@.len() || "blender"@[0] != "photoshop"@[0] || "blender"@[1] != "photoshop"@[1]);
            assert("blender"@.len() != "illustrator"@.len() || "blender"@[0] != "illustrator"@[0] || "blender"@[1] != "illustrator"@[1]);
        },
        Application::Spine => {
            assert("spine"@.len() != "browser"@.len() || "spine"@[0] != "browser"@[0] || "spine"@[1] != "browser"@[1]);
            assert("spine"@.len() != "photoshop"@.len() || "spine"@[0] != "photoshop"@[0] || "spine"@[1] != "photoshop"@[1]);
            assert("spine"@.len() != "illustrator"@.len() || "spine"@[0] != "illustrator"@[0] || "spine"@[1] != "illustrator"@[1]);
            assert("spine"@.len() != "blender"@.len() || "spine"@[0] != "blender"@[0] || "spine"@[1] != "blender"@[1]);
        },
        Application::Discord => {
            assert("discord"@.len() != "browser"@.len() || "discord"@[0] != "browser"@[0] || "discord"@[1] != "browser"@[1]);
            assert("discord"@.len() != "photoshop"@.len() || "discord"@[0] != "photoshop"@[0] || "discord"@[1] != "photoshop"@[1]);
            assert("discord"@.len() != "illustrator"@.len() || "discord"@[0] != "illustrator"@[0] || "discord"@[1] != "illustrator"@[1]);
            assert("discord"@.len() != "blender"@.len() || "discord"@[0] != "blender"@[0] || "discord"@[1] != "blender"@[1]);
            assert("discord"@.len() != "spine"@.len() || "discord"@[0] != "spine"@[0] || "discord"@[1] != "spine"@[1]);
        },
        Application::Figma => {
            assert("figma"@.len() != "browser"@.len() || "figma"@[0] != "browser"@[0] || "figma"@[1] != "browser"@[1]);
            assert("figma"@.len() != "photoshop"@.len() || "figma"@[0] != "photoshop"@[0] || "figma"@[1] != "photoshop"@[1]);
            assert("figma"@.len() != "illustrator"@.len() || "figma"@[0] != "illustrator"@[0] || "figma"@[1] != "illustrator"@[1]);
            assert("figma"@.len() != "blender"@.len() || "figma"@[0] != "blender"@[0] || "figma"@[1] != "blender"@[1]);
            assert("figma"@.len() != "spine"@.len() || "figma"@[0] != "spine"@[0] || "figma"@[1] != "spine"@[1]);
            assert("figma"@.len() != "discord"@.len() || "figma"@[0] != "discord"@[0] || "figma"@[1] != "discord"@[1]);
        },
        Application::WebStorm => {
            assert("webstorm"@.len() != "browser"@.len() || "webstorm"@[0] != "browser"@[0] || "webstorm"@[1] != "browser"@[1]);
            assert("webstorm"@.len() != "photoshop"@.len() || "webstorm"@[0] != "photoshop"@[0] || "webstorm"@[1] != "photoshop"@[1]);
            assert("webstorm"@.len() != "illustrator"@.len() || "webstorm"@[0] != "illustrator"@[0] || "webstorm"@[1] != "illustrator"@[1]);
            assert("webstorm"@.len() != "blender"@.len() || "webstorm"@[0] != "blender"@[0] || "webstorm"@[1] != "blender"@[1]);
            assert("webstorm"@.len() != "spine"@.len() || "webstorm"@[0] != "spine"@[0] || "webstorm"@[1] != "spine"@[1]);
            assert("webstorm"@.len() != "discord"@.len() || "webstorm"@[0] != "discord"@[0] || "webstorm"@[1] != "discord"@[1]);
            assert("webstorm"@.len() != "figma"@.len() || "webstorm"@[0] != "figma"@[0] || "webstorm"@[1] != "figma"@[1]);
        },
    }
}

} // verus!
