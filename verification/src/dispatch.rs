//! The request dispatcher: an operation's name and its positional arguments
//! are routed to the request they stand for, or refused.

use vstd::prelude::*;
use vstd::string::*;
use crate::decimal::{decimal, push_decimal};
use crate::text::{copy_from, same_text, texts};

verus! {

/// What the user interface asks for, with its arguments in place.
#[derive(Debug, PartialEq, Eq)]
pub enum Request {
    /// Let the user pick the scaffold directory.
    OpenScaffoldDirectory,
    /// Where the running application lies.
    GetRootPath,
    /// List the Java installations.
    GetJavas,
    /// Save a map under a name that the user confirms.
    ExportMap { file_name: String },
    /// Ask the server for the released version of an episode.
    GetServerVersion { episode: String },
    /// Join path components.
    PathJoin { parts: Vec<String> },
    /// The path that leads from one relative path to another.
    PathRelative { from: String, to: String },
    /// The directory part of a path.
    PathDirname { path: String },
    /// The path separator.
    PathSep,
    /// Whether a path exists.
    FsExists { path: String },
    /// Create a directory.
    FsMkdir { path: String },
    /// List the files of a directory, with or without its subdirectories.
    FsGetFiles { path: String, recursive: bool },
    /// Start the build wrapper.
    Spawn { working_dir: String, java_home: String, argv: Vec<String> },
    /// Terminate a process.
    Kill { id: String },
}

/// The model of a `Request`.
pub enum RequestModel {
    OpenScaffoldDirectory,
    GetRootPath,
    GetJavas,
    ExportMap { file_name: Seq<char> },
    GetServerVersion { episode: Seq<char> },
    PathJoin { parts: Seq<Seq<char>> },
    PathRelative { from: Seq<char>, to: Seq<char> },
    PathDirname { path: Seq<char> },
    PathSep,
    FsExists { path: Seq<char> },
    FsMkdir { path: Seq<char> },
    FsGetFiles { path: Seq<char>, recursive: bool },
    Spawn { working_dir: Seq<char>, java_home: Seq<char>, argv: Seq<Seq<char>> },
    Kill { id: Seq<char> },
}

impl View for Request {
    type V = RequestModel;

    open spec fn view(&self) -> RequestModel {
        match self {
            Request::OpenScaffoldDirectory => RequestModel::OpenScaffoldDirectory,
            Request::GetRootPath => RequestModel::GetRootPath,
            Request::GetJavas => RequestModel::GetJavas,
            Request::ExportMap { file_name } => RequestModel::ExportMap { file_name: file_name@ },
            Request::GetServerVersion { episode } => RequestModel::GetServerVersion {
                episode: episode@,
            },
            Request::PathJoin { parts } => RequestModel::PathJoin { parts: texts(parts@) },
            Request::PathRelative { from, to } => RequestModel::PathRelative {
                from: from@,
                to: to@,
            },
            Request::PathDirname { path } => RequestModel::PathDirname { path: path@ },
            Request::PathSep => RequestModel::PathSep,
            Request::FsExists { path } => RequestModel::FsExists { path: path@ },
            Request::FsMkdir { path } => RequestModel::FsMkdir { path: path@ },
            Request::FsGetFiles { path, recursive } => RequestModel::FsGetFiles {
                path: path@,
                recursive: *recursive,
            },
            Request::Spawn { working_dir, java_home, argv } => RequestModel::Spawn {
                working_dir: working_dir@,
                java_home: java_home@,
                argv: texts(argv@),
            },
            Request::Kill { id } => RequestModel::Kill { id: id@ },
        }
    }
}

/// Why a request was refused before anything was done.
#[derive(Debug, PartialEq, Eq)]
pub enum DispatchError {
    /// No operation has this name.
    UnsupportedOperation(String),
    /// The operation needs more arguments than were sent.
    MissingArguments { operation: String, expected: usize, found: usize },
}

/// The model of a `DispatchError`.
pub enum DispatchErrorModel {
    UnsupportedOperation(Seq<char>),
    MissingArguments { operation: Seq<char>, expected: nat, found: nat },
}

impl View for DispatchError {
    type V = DispatchErrorModel;

    open spec fn view(&self) -> DispatchErrorModel {
        match self {
            DispatchError::UnsupportedOperation(name) => DispatchErrorModel::UnsupportedOperation(
                name@,
            ),
            DispatchError::MissingArguments { operation, expected, found } => {
                DispatchErrorModel::MissingArguments {
                    operation: operation@,
                    expected: *expected as nat,
                    found: *found as nat,
                }
            },
        }
    }
}

/// The request if at least `expected` arguments were sent, and the refusal if
/// fewer were.
pub open spec fn with_arguments(
    operation: Seq<char>,
    args: Seq<Seq<char>>,
    expected: nat,
    request: RequestModel,
) -> Result<RequestModel, DispatchErrorModel> {
    if args.len() >= expected {
        Ok(request)
    } else {
        Err(DispatchErrorModel::MissingArguments { operation, expected, found: args.len() })
    }
}

/// The routing table. Each operation takes its arguments by position and
/// ignores what is sent beyond them; the flag of `fs.getFiles` may be left
/// out, and counts as set only when it is the text `true`. A name that is not
/// in the table is refused as unsupported, and a known operation with too few
/// arguments as missing arguments.
pub open spec fn routed(operation: Seq<char>, args: Seq<Seq<char>>) -> Result<
    RequestModel,
    DispatchErrorModel,
> {
    if operation == "openScaffoldDirectory"@ {
        Ok(RequestModel::OpenScaffoldDirectory)
    } else if operation == "getRootPath"@ {
        Ok(RequestModel::GetRootPath)
    } else if operation == "getJavas"@ {
        Ok(RequestModel::GetJavas)
    } else if operation == "exportMap"@ {
        with_arguments(operation, args, 1, RequestModel::ExportMap { file_name: args[0] })
    } else if operation == "getServerVersion"@ {
        with_arguments(operation, args, 1, RequestModel::GetServerVersion { episode: args[0] })
    } else if operation == "path.join"@ {
        Ok(RequestModel::PathJoin { parts: args })
    } else if operation == "path.relative"@ {
        with_arguments(
            operation,
            args,
            2,
            RequestModel::PathRelative { from: args[0], to: args[1] },
        )
    } else if operation == "path.dirname"@ {
        with_arguments(operation, args, 1, RequestModel::PathDirname { path: args[0] })
    } else if operation == "path.sep"@ {
        Ok(RequestModel::PathSep)
    } else if operation == "fs.existsSync"@ {
        with_arguments(operation, args, 1, RequestModel::FsExists { path: args[0] })
    } else if operation == "fs.mkdirSync"@ {
        with_arguments(operation, args, 1, RequestModel::FsMkdir { path: args[0] })
    } else if operation == "fs.getFiles"@ {
        with_arguments(
            operation,
            args,
            1,
            RequestModel::FsGetFiles {
                path: args[0],
                recursive: args.len() >= 2 && args[1] == "true"@,
            },
        )
    } else if operation == "child_process.spawn"@ {
        with_arguments(
            operation,
            args,
            2,
            RequestModel::Spawn { working_dir: args[0], java_home: args[1], argv: args.skip(2) },
        )
    } else if operation == "child_process.kill"@ {
        with_arguments(operation, args, 1, RequestModel::Kill { id: args[0] })
    } else {
        Err(DispatchErrorModel::UnsupportedOperation(operation))
    }
}

/// The routing table, row by row: what each operation's name is routed to.
/// No two rows share a name, so a name is routed by its own row alone.
pub proof fn lemma_routing_table(args: Seq<Seq<char>>)
    ensures
        routed("openScaffoldDirectory"@, args) == Ok::<RequestModel, DispatchErrorModel>(
            RequestModel::OpenScaffoldDirectory,
        ),
        routed("getRootPath"@, args) == Ok::<RequestModel, DispatchErrorModel>(
            RequestModel::GetRootPath,
        ),
        routed("getJavas"@, args) == Ok::<RequestModel, DispatchErrorModel>(RequestModel::GetJavas),
        routed("exportMap"@, args) == with_arguments(
            "exportMap"@,
            args,
            1,
            RequestModel::ExportMap { file_name: args[0] },
        ),
        routed("getServerVersion"@, args) == with_arguments(
            "getServerVersion"@,
            args,
            1,
            RequestModel::GetServerVersion { episode: args[0] },
        ),
        routed("path.join"@, args) == Ok::<RequestModel, DispatchErrorModel>(
            RequestModel::PathJoin { parts: args },
        ),
        routed("path.relative"@, args) == with_arguments(
            "path.relative"@,
            args,
            2,
            RequestModel::PathRelative { from: args[0], to: args[1] },
        ),
        routed("path.dirname"@, args) == with_arguments(
            "path.dirname"@,
            args,
            1,
            RequestModel::PathDirname { path: args[0] },
        ),
        routed("path.sep"@, args) == Ok::<RequestModel, DispatchErrorModel>(RequestModel::PathSep),
        routed("fs.existsSync"@, args) == with_arguments(
            "fs.existsSync"@,
            args,
            1,
            RequestModel::FsExists { path: args[0] },
        ),
        routed("fs.mkdirSync"@, args) == with_arguments(
            "fs.mkdirSync"@,
            args,
            1,
            RequestModel::FsMkdir { path: args[0] },
        ),
        routed("fs.getFiles"@, args) == with_arguments(
            "fs.getFiles"@,
            args,
            1,
            RequestModel::FsGetFiles {
                path: args[0],
                recursive: args.len() >= 2 && args[1] == "true"@,
            },
        ),
        routed("child_process.spawn"@, args) == with_arguments(
            "child_process.spawn"@,
            args,
            2,
            RequestModel::Spawn { working_dir: args[0], java_home: args[1], argv: args.skip(2) },
        ),
        routed("child_process.kill"@, args) == with_arguments(
            "child_process.kill"@,
            args,
            1,
            RequestModel::Kill { id: args[0] },
        ),
{
    reveal_strlit("openScaffoldDirectory");
    reveal_strlit("getRootPath");
    reveal_strlit("getJavas");
    reveal_strlit("exportMap");
    reveal_strlit("getServerVersion");
    reveal_strlit("path.join");
    reveal_strlit("path.relative");
    reveal_strlit("path.dirname");
    reveal_strlit("path.sep");
    reveal_strlit("fs.existsSync");
    reveal_strlit("fs.mkdirSync");
    reveal_strlit("fs.getFiles");
    reveal_strlit("child_process.spawn");
    reveal_strlit("child_process.kill");
    assert("openScaffoldDirectory"@.len() == 21 && "openScaffoldDirectory"@[0] == 'o');
    assert("getRootPath"@.len() == 11 && "getRootPath"@[0] == 'g');
    assert("getJavas"@.len() == 8 && "getJavas"@[0] == 'g');
    assert("exportMap"@.len() == 9 && "exportMap"@[0] == 'e');
    assert("getServerVersion"@.len() == 16 && "getServerVersion"@[0] == 'g');
    assert("path.join"@.len() == 9 && "path.join"@[0] == 'p');
    assert("path.relative"@.len() == 13 && "path.relative"@[0] == 'p');
    assert("path.dirname"@.len() == 12 && "path.dirname"@[0] == 'p');
    assert("path.sep"@.len() == 8 && "path.sep"@[0] == 'p');
    assert("fs.existsSync"@.len() == 13 && "fs.existsSync"@[0] == 'f');
    assert("fs.mkdirSync"@.len() == 12 && "fs.mkdirSync"@[0] == 'f');
    assert("fs.getFiles"@.len() == 11 && "fs.getFiles"@[0] == 'f');
    assert("child_process.spawn"@.len() == 19 && "child_process.spawn"@[0] == 'c');
    assert("child_process.kill"@.len() == 18 && "child_process.kill"@[0] == 'c');
}

/// The refusal of `operation` for want of arguments.
fn missing(operation: &str, expected: usize, args: &Vec<String>) -> (r: Result<
    Request,
    DispatchError,
>)
    ensures
        r matches Err(e) && e@ == (DispatchErrorModel::MissingArguments {
            operation: operation@,
            expected: expected as nat,
            found: args@.len(),
        }),
{
    Err(
        DispatchError::MissingArguments {
            operation: String::from_str(operation),
            expected,
            found: args.len(),
        },
    )
}

/// Routes an operation to its request.
pub fn route(operation: &str, args: &Vec<String>) -> (r: Result<Request, DispatchError>)
    ensures
        match r {
            Ok(request) => routed(operation@, texts(args@)) == Ok::<
                RequestModel,
                DispatchErrorModel,
            >(request@),
            Err(e) => routed(operation@, texts(args@)) == Err::<RequestModel, DispatchErrorModel>(
                e@,
            ),
        },
{
    let ghost models = texts(args@);
    let n = args.len();
    if same_text(operation, "openScaffoldDirectory") {
        Ok(Request::OpenScaffoldDirectory)
    } else if same_text(operation, "getRootPath") {
        Ok(Request::GetRootPath)
    } else if same_text(operation, "getJavas") {
        Ok(Request::GetJavas)
    } else if same_text(operation, "exportMap") {
        if n < 1 {
            return missing(operation, 1, args);
        }
        Ok(Request::ExportMap { file_name: args[0].clone() })
    } else if same_text(operation, "getServerVersion") {
        if n < 1 {
            return missing(operation, 1, args);
        }
        Ok(Request::GetServerVersion { episode: args[0].clone() })
    } else if same_text(operation, "path.join") {
        let parts = copy_from(args, 0);
        assert(models.skip(0) =~= models);
        Ok(Request::PathJoin { parts })
    } else if same_text(operation, "path.relative") {
        if n < 2 {
            return missing(operation, 2, args);
        }
        Ok(Request::PathRelative { from: args[0].clone(), to: args[1].clone() })
    } else if same_text(operation, "path.dirname") {
        if n < 1 {
            return missing(operation, 1, args);
        }
        Ok(Request::PathDirname { path: args[0].clone() })
    } else if same_text(operation, "path.sep") {
        Ok(Request::PathSep)
    } else if same_text(operation, "fs.existsSync") {
        if n < 1 {
            return missing(operation, 1, args);
        }
        Ok(Request::FsExists { path: args[0].clone() })
    } else if same_text(operation, "fs.mkdirSync") {
        if n < 1 {
            return missing(operation, 1, args);
        }
        Ok(Request::FsMkdir { path: args[0].clone() })
    } else if same_text(operation, "fs.getFiles") {
        if n < 1 {
            return missing(operation, 1, args);
        }
        let recursive = n >= 2 && same_text(args[1].as_str(), "true");
        Ok(Request::FsGetFiles { path: args[0].clone(), recursive })
    } else if same_text(operation, "child_process.spawn") {
        if n < 2 {
            return missing(operation, 2, args);
        }
        let argv = copy_from(args, 2);
        Ok(Request::Spawn { working_dir: args[0].clone(), java_home: args[1].clone(), argv })
    } else if same_text(operation, "child_process.kill") {
        if n < 1 {
            return missing(operation, 1, args);
        }
        Ok(Request::Kill { id: args[0].clone() })
    } else {
        Err(DispatchError::UnsupportedOperation(String::from_str(operation)))
    }
}

impl DispatchErrorModel {
    /// The message that the caller is shown. It names the operation.
    pub open spec fn message(self) -> Seq<char> {
        match self {
            DispatchErrorModel::UnsupportedOperation(name) => "Invalid native API operation: "@
                + name,
            DispatchErrorModel::MissingArguments { operation, expected, found } => {
                "Missing arguments for "@ + operation + ": expected at least "@ + decimal(expected)
                    + ", found "@ + decimal(found)
            },
        }
    }
}

impl DispatchError {
    /// The message that the caller is shown.
    pub fn message(&self) -> (r: String)
        ensures
            r@ == self@.message(),
    {
        match self {
            DispatchError::UnsupportedOperation(name) => {
                let mut r = String::from_str("Invalid native API operation: ");
                r.append(name.as_str());
                r
            },
            DispatchError::MissingArguments { operation, expected, found } => {
                let mut r = String::from_str("Missing arguments for ");
                r.append(operation.as_str());
                r.append(": expected at least ");
                push_decimal(&mut r, *expected as u64);
                r.append(", found ");
                push_decimal(&mut r, *found as u64);
                r
            },
        }
    }
}

} // verus!
