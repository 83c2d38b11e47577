//! The spawner: how a launch is planned from what the user interface sent,
//! and what becomes of the registry once the system has answered.

use vstd::prelude::*;
use vstd::string::*;
use crate::ids::ProcessId;
use crate::registry::Registry;
use crate::relay::Relay;
use crate::text::texts;

verus! {

/// The family of the system that the supervisor runs on. It decides the name
/// of the wrapper script and which characters separate the parts of a path.
#[derive(Clone, Copy, Debug, PartialEq, Eq, Structural)]
pub enum Platform {
    Unix,
    Windows,
}

impl Platform {
    /// The file name of the build wrapper: with the suffix `.bat` on Windows,
    /// without a suffix elsewhere.
    pub open spec fn wrapper_name(self) -> Seq<char> {
        match self {
            Platform::Unix => "gradlew"@,
            Platform::Windows => "gradlew.bat"@,
        }
    }

    /// The system's own separator of path components.
    pub open spec fn separator(self) -> char {
        match self {
            Platform::Unix => '/',
            Platform::Windows => '\\',
        }
    }

    /// Whether `c` ends a directory's name so that no separator is needed
    /// after it.
    pub open spec fn is_separator(self, c: char) -> bool {
        c == '/' || (self is Windows && c == '\\')
    }
}

/// The path of the build wrapper in the directory `dir`: the directory, a
/// `/` unless the directory is empty or ends in a separator, and the
/// wrapper's name. The `/` joins on every system; only the name differs.
pub open spec fn wrapper_path(platform: Platform, dir: Seq<char>) -> Seq<char> {
    if dir.len() == 0 || platform.is_separator(dir.last()) {
        dir + platform.wrapper_name()
    } else {
        dir.push('/') + platform.wrapper_name()
    }
}

/// The variables that are set for the child: `JAVA_HOME` when a value was
/// given, and nothing when the value is empty.
pub open spec fn env_overrides(java_home: Seq<char>) -> Seq<(Seq<char>, Seq<char>)> {
    if java_home.len() == 0 {
        Seq::empty()
    } else {
        seq![("JAVA_HOME"@, java_home)]
    }
}

/// Everything that is needed to start the build wrapper.
#[derive(Debug, PartialEq, Eq)]
pub struct LaunchRequest {
    /// The path of the wrapper script.
    pub program: String,
    /// The arguments, in order.
    pub args: Vec<String>,
    /// The directory in which the child runs.
    pub working_dir: String,
    /// The variables that are set on top of the inherited environment.
    pub env: Vec<(String, String)>,
}

/// The model of a `LaunchRequest`.
pub struct LaunchModel {
    pub program: Seq<char>,
    pub args: Seq<Seq<char>>,
    pub working_dir: Seq<char>,
    pub env: Seq<(Seq<char>, Seq<char>)>,
}

impl View for LaunchRequest {
    type V = LaunchModel;

    open spec fn view(&self) -> LaunchModel {
        LaunchModel {
            program: self.program@,
            args: texts(self.args@),
            working_dir: self.working_dir@,
            env: self.env@.map_values(|pair: (String, String)| (pair.0@, pair.1@)),
        }
    }
}

/// The launch that is planned for a working directory, a Java home and an
/// argument vector.
pub open spec fn planned(
    platform: Platform,
    working_dir: Seq<char>,
    java_home: Seq<char>,
    argv: Seq<Seq<char>>,
) -> LaunchModel {
    LaunchModel {
        program: wrapper_path(platform, working_dir),
        args: argv,
        working_dir,
        env: env_overrides(java_home),
    }
}

/// Plans the launch of the build wrapper that lies in `working_dir`, with the
/// arguments `argv`. The child inherits the environment; `JAVA_HOME` is set
/// only when `java_home` is not empty.
pub fn plan_launch(platform: Platform, working_dir: &str, java_home: &str, argv: Vec<String>) -> (r:
    LaunchRequest)
    ensures
        r@ == planned(platform, working_dir@, java_home@, texts(argv@)),
{
    let mut program = String::from_str(working_dir);
    let len = working_dir.unicode_len();
    let needs_separator = if len == 0 {
        false
    } else {
        let last = working_dir.get_char(len - 1);
        match platform {
            Platform::Unix => last != '/',
            Platform::Windows => last != '/' && last != '\\',
        }
    };
    if needs_separator {
        proof {
            reveal_strlit("/");
        }
        program.append("/");
        assert(program@ =~= working_dir@.push('/'));
    }
    match platform {
        Platform::Unix => {
            program.append("gradlew");
        },
        Platform::Windows => {
            program.append("gradlew.bat");
        },
    }
    let mut env: Vec<(String, String)> = Vec::new();
    if !java_home.is_empty() {
        env.push((String::from_str("JAVA_HOME"), String::from_str(java_home)));
    }
    let r = LaunchRequest { program, args: argv, working_dir: String::from_str(working_dir), env };
    proof {
        assert(r@.env =~= env_overrides(java_home@));
        assert(r@.program =~= wrapper_path(platform, working_dir@));
    }
    r
}

/// Why a process could not be started: the system's own message.
#[derive(Debug, PartialEq, Eq)]
pub struct SpawnError {
    pub message: String,
}

/// Settles a spawn once the system has answered. Where the process started,
/// it is registered under its id with its handle (a handle still registered
/// under that id is displaced and released), and the relay that will forward
/// its events is handed out, streaming. Where it did not start, the registry
/// stays as it was and the system's message is the error.
pub fn complete_spawn<H>(registry: &mut Registry<H>, outcome: Result<(ProcessId, H), String>) -> (r:
    Result<Relay, SpawnError>)
    ensures
        match outcome {
            Ok((id, handle)) => {
                &&& r matches Ok(relay)
                &&& relay.pid() == id
                &&& !relay.finished()
                &&& final(registry)@ == old(registry)@.insert(id@, handle)
                &&& final(registry)@.contains_key(id@)
            },
            Err(message) => {
                &&& r matches Err(e)
                &&& e.message@ == message@
                &&& final(registry)@ == old(registry)@
            },
        },
{
    match outcome {
        Ok((id, handle)) => {
            let _ = registry.register(id, handle);
            Ok(Relay::new(id))
        },
        Err(message) => Err(SpawnError { message }),
    }
}

} // verus!
