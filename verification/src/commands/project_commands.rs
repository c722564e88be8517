//! Launching an editor on a project.

use vstd::prelude::*;
use vstd::string::*;
use crate::error::{ErrorView, InspectorError};
use crate::json::{
    json_member_exists, json_parse_error, json_text, member_exists, parse_error, top_text,
};
use crate::text::text_of;
use crate::text::{decimal_text, same_text, slice_text, texts_of, u64_text};

verus! {

/// A command of the framework's console, as the framework lists it.
#[derive(Debug, Clone)]
pub struct LaravelCommand {
    pub name: String,
    pub description: Option<String>,
}

/// The program that an editor is started by, under its display name or under
/// the name of the program itself. `None` for an editor that is not supported.
pub open spec fn editor_program(editor: Seq<char>) -> Option<Seq<char>> {
    if editor == "VSCode"@ || editor == "code"@ {
        Some("code"@)
    } else if editor == "Sublime Text"@ || editor == "subl"@ {
        Some("subl"@)
    } else if editor == "PHPStorm"@ || editor == "phpstorm"@ {
        Some("phpstorm"@)
    } else if editor == "Windsurf"@ || editor == "windsurf"@ {
        Some("windsurf"@)
    } else if editor == "Zed"@ || editor == "zed"@ {
        Some("zed"@)
    } else {
        None
    }
}

/// Picks the program for an editor. An editor that is not supported is an
/// error that names it.
pub fn editor_command(editor: &str) -> (r: Result<&'static str, InspectorError>)
    ensures
        match r {
            Ok(p) => editor_program(editor@) == Some(p@),
            Err(e) => editor_program(editor@) is None && e@ == ErrorView::UnsupportedEditor(
                editor@,
            ),
        },
{
    if same_text(editor, "VSCode") || same_text(editor, "code") {
        Ok("code")
    } else if same_text(editor, "Sublime Text") || same_text(editor, "subl") {
        Ok("subl")
    } else if same_text(editor, "PHPStorm") || same_text(editor, "phpstorm") {
        Ok("phpstorm")
    } else if same_text(editor, "Windsurf") || same_text(editor, "windsurf") {
        Ok("windsurf")
    } else if same_text(editor, "Zed") || same_text(editor, "zed") {
        Ok("zed")
    } else {
        Err(InspectorError::UnsupportedEditor(String::from_str(editor)))
    }
}

/// A location with a line number behind a colon.
pub open spec fn at_line(location: Seq<char>, line: nat) -> Seq<char> {
    location + ":"@ + decimal_text(line)
}

/// The arguments that open `location` in the program `command`, at `line`
/// where one is given.
pub open spec fn editor_args(command: Seq<char>, location: Seq<char>, line: Option<nat>) -> Seq<
    Seq<char>,
> {
    match line {
        Some(l) => if command == "code"@ || command == "windsurf"@ || command == "zed"@ {
            seq!["-g"@, at_line(location, l)]
        } else if command == "phpstorm"@ {
            seq!["--line"@, decimal_text(l), location]
        } else {
            seq![at_line(location, l)]
        },
        None => seq![location],
    }
}

/// Writes the arguments for the program `command`.
pub fn editor_arguments(command: &str, location: &str, line: Option<u32>) -> (r: Vec<String>)
    ensures
        texts_of(r@) == editor_args(
            command@,
            location@,
            match line {
                Some(l) => Some(l as nat),
                None => None,
            },
        ),
{
    let mut args: Vec<String> = Vec::new();
    match line {
        Some(l) => {
            let number = u64_text(l as u64);
            let mut target = String::from_str(location);
            target.append(":");
            target.append(number.as_str());
            if same_text(command, "code") || same_text(command, "windsurf") || same_text(
                command,
                "zed",
            ) {
                args.push(String::from_str("-g"));
                args.push(target);
                assert(texts_of(args@) =~= seq!["-g"@, at_line(location@, l as nat)]);
            } else if same_text(command, "phpstorm") {
                args.push(String::from_str("--line"));
                args.push(number);
                args.push(String::from_str(location));
                assert(texts_of(args@) =~= seq!["--line"@, decimal_text(l as nat), location@]);
            } else {
                args.push(target);
                assert(texts_of(args@) =~= seq![at_line(location@, l as nat)]);
            }
        },
        None => {
            args.push(String::from_str(location));
            assert(texts_of(args@) =~= seq![location@]);
        },
    }
    args
}

/// The command that an entry of the framework's listing stands for: one with
/// a name, with or without a description.
pub fn laravel_command(name: Option<String>, description: Option<String>) -> (r: Option<
    LaravelCommand,
>)
    ensures
        match r {
            Some(c) => name is Some && c.name@ == name->0@ && text_of(c.description) == text_of(
                description,
            ),
            None => name is None,
        },
{
    match name {
        Some(name) => Some(LaravelCommand { name, description }),
        None => None,
    }
}

/// The kind of a project, given what its package file says: whether there
/// is such a file, what speaks against it as a JSON document, and whether it
/// requires the framework. A package file that is no document is an error
/// with what speaks against it.
pub open spec fn project_type_for(
    found: bool,
    parse_error: Option<Seq<char>>,
    requires_framework: bool,
) -> Result<Seq<char>, ErrorView> {
    if !found {
        Ok("Unknown"@)
    } else if parse_error is Some {
        Err(ErrorView::MalformedDocument(parse_error->0))
    } else if requires_framework {
        Ok("Laravel"@)
    } else {
        Ok("Unknown"@)
    }
}

/// `r` is the text or the error that `expected` says.
pub open spec fn is_text_result(
    r: Result<String, InspectorError>,
    expected: Result<Seq<char>, ErrorView>,
) -> bool {
    match r {
        Ok(t) => expected == Ok::<Seq<char>, ErrorView>(t@),
        Err(e) => expected == Err::<Seq<char>, ErrorView>(e@),
    }
}

/// Names the kind of a project from what its package file says.
pub fn project_type_from(found: bool, parse_error: Option<String>, requires_framework: bool) -> (r:
    Result<String, InspectorError>)
    ensures
        is_text_result(r, project_type_for(found, text_of(parse_error), requires_framework)),
{
    if !found {
        return Ok(String::from_str("Unknown"));
    }
    match parse_error {
        Some(detail) => Err(InspectorError::MalformedDocument(detail)),
        None => {
            if requires_framework {
                Ok(String::from_str("Laravel"))
            } else {
                Ok(String::from_str("Unknown"))
            }
        },
    }
}

/// The kind of a project with the package file `composer`: `Laravel`
/// where the file lists `laravel/framework` under `require`.
pub open spec fn project_type(composer: Option<Seq<char>>) -> Result<Seq<char>, ErrorView> {
    match composer {
        Some(c) => project_type_for(
            true,
            json_parse_error(c),
            json_member_exists(c, "require"@, "laravel/framework"@) == Some(true),
        ),
        None => project_type_for(false, None, false),
    }
}

/// Names the kind of a project from the text of its package file, `None`
/// where it has none.
pub fn get_project_type(composer: Option<&str>) -> (r: Result<String, InspectorError>)
    ensures
        is_text_result(r, project_type(slice_text(composer))),
{
    match composer {
        Some(c) => {
            let against = parse_error(c);
            let listed = match member_exists(c, "require", "laravel/framework") {
                Some(found) => found,
                None => false,
            };
            project_type_from(true, against, listed)
        },
        None => project_type_from(false, None, false),
    }
}

/// What the settings of a project say of a key.
#[derive(Debug, Clone)]
pub enum ConfigAnswer {
    /// The settings hold this text under the key.
    Found(String),
    /// The settings do not say; the key is `project_type`, so the kind of the
    /// project answers.
    AskProjectType,
    /// The settings do not say, and nothing else does.
    Missing,
}

/// The mathematical value of a [`ConfigAnswer`].
pub ghost enum ConfigAnswerView {
    Found(Seq<char>),
    AskProjectType,
    Missing,
}

impl View for ConfigAnswer {
    type V = ConfigAnswerView;

    open spec fn view(&self) -> ConfigAnswerView {
        match self {
            ConfigAnswer::Found(v) => ConfigAnswerView::Found(v@),
            ConfigAnswer::AskProjectType => ConfigAnswerView::AskProjectType,
            ConfigAnswer::Missing => ConfigAnswerView::Missing,
        }
    }
}

/// What settings answer, given what was read from them: whether there are
/// settings, what speaks against them as a JSON document, and the text under
/// the key.
///
/// Settings that are no document are an error with what speaks against them.
/// A text under the key is the answer. Without one, the kind of the project
/// answers for the key `project_type`, and nothing for any other key.
pub open spec fn config_answer_for(
    found: bool,
    parse_error: Option<Seq<char>>,
    value: Option<Seq<char>>,
    key: Seq<char>,
) -> Result<ConfigAnswerView, ErrorView> {
    if found && parse_error is Some {
        Err(ErrorView::MalformedDocument(parse_error->0))
    } else if found && value is Some {
        Ok(ConfigAnswerView::Found(value->0))
    } else if key == "project_type"@ {
        Ok(ConfigAnswerView::AskProjectType)
    } else {
        Ok(ConfigAnswerView::Missing)
    }
}

/// What the settings `config` answer for `key`; `None` stands for a project
/// without settings.
pub open spec fn config_answer(config: Option<Seq<char>>, key: Seq<char>) -> Result<
    ConfigAnswerView,
    ErrorView,
> {
    match config {
        Some(c) => config_answer_for(true, json_parse_error(c), json_text(c, key), key),
        None => config_answer_for(false, None, None, key),
    }
}

/// `r` is the answer or the error that `expected` says.
pub open spec fn is_config_answer(
    r: Result<ConfigAnswer, InspectorError>,
    expected: Result<ConfigAnswerView, ErrorView>,
) -> bool {
    match r {
        Ok(a) => expected == Ok::<ConfigAnswerView, ErrorView>(a@),
        Err(e) => expected == Err::<ConfigAnswerView, ErrorView>(e@),
    }
}

/// Decides what settings answer from what was read from them.
pub fn config_answer_from(
    found: bool,
    parse_error: Option<String>,
    value: Option<String>,
    key: &str,
) -> (r: Result<ConfigAnswer, InspectorError>)
    ensures
        is_config_answer(
            r,
            config_answer_for(found, text_of(parse_error), text_of(value), key@),
        ),
{
    if found {
        if let Some(detail) = parse_error {
            return Err(InspectorError::MalformedDocument(detail));
        }
        if let Some(v) = value {
            return Ok(ConfigAnswer::Found(v));
        }
    }
    if same_text(key, "project_type") {
        Ok(ConfigAnswer::AskProjectType)
    } else {
        Ok(ConfigAnswer::Missing)
    }
}

/// Looks `key` up in the text of a project's settings, `None` where it has
/// none.
pub fn get_project_config(config: Option<&str>, key: &str) -> (r: Result<
    ConfigAnswer,
    InspectorError,
>)
    ensures
        is_config_answer(r, config_answer(slice_text(config), key@)),
{
    match config {
        Some(c) => {
            let against = parse_error(c);
            let value = top_text(c, key);
            config_answer_from(true, against, value, key)
        },
        None => config_answer_from(false, None, None, key),
    }
}

/// What the kind of a project answers for the key `project_type`: the kind
/// itself, unless it is unknown or could not be told, which `None` stands
/// for.
pub fn project_type_answer(project_type: Option<String>) -> (r: Option<String>)
    ensures
        text_of(r) == if text_of(project_type) == Some("Unknown"@) {
            None
        } else {
            text_of(project_type)
        },
{
    match project_type {
        Some(t) => {
            if same_text(t.as_str(), "Unknown") {
                None
            } else {
                Some(t)
            }
        },
        None => None,
    }
}

} // verus!
