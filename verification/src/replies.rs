//! The answers of the dispatcher: what the user interface gets back once a
//! request has been carried out.

use vstd::prelude::*;
use vstd::string::*;
use crate::ids::ProcessId;
use crate::javas::{java_listing, java_models, java_rows, JavaInstall, JavaModel};
use crate::text::texts;

verus! {

/// How a request ended: what the system, the user or the library's own
/// helpers gave.
#[derive(Debug, PartialEq, Eq)]
pub enum Outcome {
    /// The directory that the user picked, or nothing if the dialog was
    /// cancelled.
    DirectoryChosen(Option<String>),
    /// The path of the running application.
    RootPath(String),
    /// The Java installations that were found.
    Javas(Vec<JavaInstall>),
    /// The map was saved, or the user cancelled, or writing failed: the answer
    /// is the same.
    MapExported,
    /// The version that the server named, or nothing if it could not be had.
    ServerVersion(Option<String>),
    /// A path that a path helper computed.
    Path(String),
    /// Whether the path exists.
    Exists(bool),
    /// The directory was made, or could not be: the answer is the same.
    DirectoryMade,
    /// The files that were listed, or the system's message if a directory
    /// could not be read.
    Files(Result<Vec<String>, String>),
    /// The id of the process that was started, or the system's message if it
    /// could not be.
    Spawned(Result<ProcessId, String>),
    /// The request to kill was accepted.
    Killed,
}

/// The model of an `Outcome`.
pub enum OutcomeModel {
    DirectoryChosen(Option<Seq<char>>),
    RootPath(Seq<char>),
    Javas(Seq<JavaModel>),
    MapExported,
    ServerVersion(Option<Seq<char>>),
    Path(Seq<char>),
    Exists(bool),
    DirectoryMade,
    Files(Result<Seq<Seq<char>>, Seq<char>>),
    Spawned(Result<ProcessId, Seq<char>>),
    Killed,
}

impl View for Outcome {
    type V = OutcomeModel;

    open spec fn view(&self) -> OutcomeModel {
        match self {
            Outcome::DirectoryChosen(choice) => OutcomeModel::DirectoryChosen(
                match choice {
                    Some(d) => Some(d@),
                    None => None,
                },
            ),
            Outcome::RootPath(path) => OutcomeModel::RootPath(path@),
            Outcome::Javas(installs) => OutcomeModel::Javas(java_models(installs@)),
            Outcome::MapExported => OutcomeModel::MapExported,
            Outcome::ServerVersion(version) => OutcomeModel::ServerVersion(
                match version {
                    Some(v) => Some(v@),
                    None => None,
                },
            ),
            Outcome::Path(path) => OutcomeModel::Path(path@),
            Outcome::Exists(exists) => OutcomeModel::Exists(*exists),
            Outcome::DirectoryMade => OutcomeModel::DirectoryMade,
            Outcome::Files(listing) => OutcomeModel::Files(
                match listing {
                    Ok(files) => Ok(texts(files@)),
                    Err(message) => Err(message@),
                },
            ),
            Outcome::Spawned(started) => OutcomeModel::Spawned(
                match started {
                    Ok(id) => Ok(*id),
                    Err(message) => Err(message@),
                },
            ),
            Outcome::Killed => OutcomeModel::Killed,
        }
    }
}

/// The answer to each outcome: a list of texts, or the message of an error.
/// A cancelled dialog and an unknown process are no errors. Only a spawn that
/// failed and a directory that could not be read are, and their messages
/// carry what the system said.
pub open spec fn answer(outcome: OutcomeModel) -> Result<Seq<Seq<char>>, Seq<char>> {
    match outcome {
        OutcomeModel::DirectoryChosen(Some(d)) => Ok(seq![d]),
        OutcomeModel::DirectoryChosen(None) => Ok(Seq::empty()),
        OutcomeModel::RootPath(path) => Ok(seq![path]),
        OutcomeModel::Javas(installs) => Ok(java_rows(installs)),
        OutcomeModel::MapExported => Ok(Seq::empty()),
        OutcomeModel::ServerVersion(Some(v)) => Ok(seq![v]),
        OutcomeModel::ServerVersion(None) => Ok(seq![Seq::empty()]),
        OutcomeModel::Path(path) => Ok(seq![path]),
        OutcomeModel::Exists(true) => Ok(seq!["true"@]),
        OutcomeModel::Exists(false) => Ok(seq![Seq::empty()]),
        OutcomeModel::DirectoryMade => Ok(seq![Seq::empty()]),
        OutcomeModel::Files(Ok(files)) => Ok(files),
        OutcomeModel::Files(Err(message)) => Err("Error reading directory: "@ + message),
        OutcomeModel::Spawned(Ok(id)) => Ok(seq![id.text()]),
        OutcomeModel::Spawned(Err(message)) => Err(message),
        OutcomeModel::Killed => Ok(seq![Seq::empty()]),
    }
}

/// A list that holds the one string `s`.
fn one(s: String) -> (r: Vec<String>)
    ensures
        texts(r@) == seq![s@],
{
    let mut r: Vec<String> = Vec::new();
    r.push(s);
    assert(texts(r@) =~= seq![s@]);
    r
}

/// A list that holds nothing.
fn nothing() -> (r: Vec<String>)
    ensures
        texts(r@) == Seq::<Seq<char>>::empty(),
{
    let r: Vec<String> = Vec::new();
    assert(texts(r@) =~= Seq::<Seq<char>>::empty());
    r
}

/// Turns the outcome of a request into the answer for the user interface.
pub fn respond(outcome: Outcome) -> (r: Result<Vec<String>, String>)
    ensures
        match r {
            Ok(list) => answer(outcome@) == Ok::<Seq<Seq<char>>, Seq<char>>(texts(list@)),
            Err(message) => answer(outcome@) == Err::<Seq<Seq<char>>, Seq<char>>(message@),
        },
{
    match outcome {
        Outcome::DirectoryChosen(Some(d)) => Ok(one(d)),
        Outcome::DirectoryChosen(None) => Ok(nothing()),
        Outcome::RootPath(path) => Ok(one(path)),
        Outcome::Javas(installs) => Ok(java_listing(&installs)),
        Outcome::MapExported => Ok(nothing()),
        Outcome::ServerVersion(Some(v)) => Ok(one(v)),
        Outcome::ServerVersion(None) => Ok(one(String::new())),
        Outcome::Path(path) => Ok(one(path)),
        Outcome::Exists(true) => Ok(one(String::from_str("true"))),
        Outcome::Exists(false) => Ok(one(String::new())),
        Outcome::DirectoryMade => Ok(one(String::new())),
        Outcome::Files(Ok(files)) => Ok(files),
        Outcome::Files(Err(message)) => {
            let mut text = String::from_str("Error reading directory: ");
            text.append(message.as_str());
            Err(text)
        },
        Outcome::Spawned(Ok(id)) => Ok(one(id.to_text())),
        Outcome::Spawned(Err(message)) => Err(message),
        Outcome::Killed => Ok(one(String::new())),
    }
}

/// The address at which the server tells the released version of the
/// episode `episode`.
pub open spec fn version_address(episode: Seq<char>) -> Seq<char> {
    "https://api.battlecode.org/api/episode/e/bc"@ + episode + "/?format=json"@
}

/// Builds the address at which the server tells the released version of an
/// episode.
pub fn server_version_address(episode: &str) -> (r: String)
    ensures
        r@ == version_address(episode@),
{
    let mut r = String::from_str("https://api.battlecode.org/api/episode/e/bc");
    r.append(episode);
    r.append("/?format=json");
    r
}

} // verus!
