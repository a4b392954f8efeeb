//! The rules a function must meet before the registry accepts it.

use crate::text::{char_is_alphanumeric, contains_text, is_alphanumeric, is_substring};
use crate::types::CreateFunctionRequest;
use vstd::prelude::*;
use vstd::string::*;
use vstd::utf8::encode_utf8;

verus! {

/// Longest accepted function name, in bytes of UTF-8.
pub const MAX_NAME_BYTES: usize = 64;

/// Largest accepted source text, in bytes of UTF-8.
pub const MAX_CODE_BYTES: usize = 1048576;

/// A construct that submitted code may not contain.
#[derive(Clone, Copy, Debug, PartialEq, Eq, Structural)]
pub enum Forbidden {
    RequireFsSingleQuoted,
    RequireFsDoubleQuoted,
    ImportFs,
    ProcessExit,
    Dirname,
    Filename,
}

impl Forbidden {
    /// The text whose presence is refused.
    pub open spec fn pattern(self) -> Seq<char> {
        match self {
            Forbidden::RequireFsSingleQuoted => "require('fs')"@,
            Forbidden::RequireFsDoubleQuoted => "require(\"fs\")"@,
            Forbidden::ImportFs => "import fs"@,
            Forbidden::ProcessExit => "process.exit"@,
            Forbidden::Dirname => "__dirname"@,
            Forbidden::Filename => "__filename"@,
        }
    }

    /// The text whose presence is refused.
    pub fn pattern_text(self) -> (text: &'static str)
        ensures
            text@ == self.pattern(),
    {
        match self {
            Forbidden::RequireFsSingleQuoted => "require('fs')",
            Forbidden::RequireFsDoubleQuoted => "require(\"fs\")",
            Forbidden::ImportFs => "import fs",
            Forbidden::ProcessExit => "process.exit",
            Forbidden::Dirname => "__dirname",
            Forbidden::Filename => "__filename",
        }
    }
}

/// Why a function was refused. The variants stand in the order in which the
/// rules are tried: a request that breaks several is reported under the first.
#[derive(Clone, Copy, Debug, PartialEq, Eq, Structural)]
pub enum ValidationError {
    EmptyName,
    InvalidName,
    NameTooLong,
    EmptyCode,
    CodeTooLarge,
    UnsupportedRuntime,
    MissingExport,
    ForbiddenPattern(Forbidden),
}

impl ValidationError {
    /// The human-readable text of the refusal.
    pub open spec fn message_text(self) -> Seq<char> {
        match self {
            ValidationError::EmptyName => "Function name cannot be empty"@,
            ValidationError::InvalidName =>
                "Function name can only contain alphanumeric characters, hyphens, and underscores"@,
            ValidationError::NameTooLong => "Function name cannot exceed 64 characters"@,
            ValidationError::EmptyCode => "Function code cannot be empty"@,
            ValidationError::CodeTooLarge => "Function code cannot exceed 1MB"@,
            ValidationError::UnsupportedRuntime => "Only 'v8' runtime is currently supported"@,
            ValidationError::MissingExport => "Function must export a default function"@,
            ValidationError::ForbiddenPattern(which) => "Function contains forbidden pattern: "@
                + which.pattern(),
        }
    }

    /// The human-readable text of the refusal.
    pub fn message(&self) -> (text: String)
        ensures
            text@ == self.message_text(),
    {
        match self {
            ValidationError::EmptyName => String::from_str("Function name cannot be empty"),
            ValidationError::InvalidName => String::from_str(
                "Function name can only contain alphanumeric characters, hyphens, and underscores",
            ),
            ValidationError::NameTooLong => String::from_str(
                "Function name cannot exceed 64 characters",
            ),
            ValidationError::EmptyCode => String::from_str("Function code cannot be empty"),
            ValidationError::CodeTooLarge => String::from_str("Function code cannot exceed 1MB"),
            ValidationError::UnsupportedRuntime => String::from_str(
                "Only 'v8' runtime is currently supported",
            ),
            ValidationError::MissingExport => String::from_str(
                "Function must export a default function",
            ),
            ValidationError::ForbiddenPattern(which) => String::from_str(
                "Function contains forbidden pattern: ",
            ).concat(which.pattern_text()),
        }
    }
}

/// A character that may stand in a function name.
pub open spec fn name_char_ok(c: char) -> bool {
    char_is_alphanumeric(c) || c == '-' || c == '_'
}

/// Every character of the name may stand in a function name.
pub open spec fn name_chars_ok(name: Seq<char>) -> bool {
    forall|i: int| 0 <= i < name.len() ==> name_char_ok(#[trigger] name[i])
}

/// The first rule about names that `name` breaks, if any.
pub open spec fn name_verdict(name: Seq<char>) -> Option<ValidationError> {
    if name.len() == 0 {
        Some(ValidationError::EmptyName)
    } else if !name_chars_ok(name) {
        Some(ValidationError::InvalidName)
    } else if encode_utf8(name).len() > MAX_NAME_BYTES {
        Some(ValidationError::NameTooLong)
    } else {
        None
    }
}

/// The first rule about source text that `code` breaks, if any: it must
/// export a handler and hold none of the forbidden constructs.
pub open spec fn syntax_verdict(code: Seq<char>) -> Option<ValidationError> {
    if !is_substring("export default"@, code) && !is_substring("module.exports"@, code) {
        Some(ValidationError::MissingExport)
    } else if is_substring(Forbidden::RequireFsSingleQuoted.pattern(), code) {
        Some(ValidationError::ForbiddenPattern(Forbidden::RequireFsSingleQuoted))
    } else if is_substring(Forbidden::RequireFsDoubleQuoted.pattern(), code) {
        Some(ValidationError::ForbiddenPattern(Forbidden::RequireFsDoubleQuoted))
    } else if is_substring(Forbidden::ImportFs.pattern(), code) {
        Some(ValidationError::ForbiddenPattern(Forbidden::ImportFs))
    } else if is_substring(Forbidden::ProcessExit.pattern(), code) {
        Some(ValidationError::ForbiddenPattern(Forbidden::ProcessExit))
    } else if is_substring(Forbidden::Dirname.pattern(), code) {
        Some(ValidationError::ForbiddenPattern(Forbidden::Dirname))
    } else if is_substring(Forbidden::Filename.pattern(), code) {
        Some(ValidationError::ForbiddenPattern(Forbidden::Filename))
    } else {
        None
    }
}

/// The first rule about source text and runtime that the pair breaks, if any.
pub open spec fn body_verdict(code: Seq<char>, runtime: Seq<char>) -> Option<ValidationError> {
    if code.len() == 0 {
        Some(ValidationError::EmptyCode)
    } else if encode_utf8(code).len() > MAX_CODE_BYTES {
        Some(ValidationError::CodeTooLarge)
    } else if runtime != "v8"@ {
        Some(ValidationError::UnsupportedRuntime)
    } else {
        syntax_verdict(code)
    }
}

/// The first rule that a request breaks, if any: names are judged before
/// source text, source text before runtime, runtime before syntax.
pub open spec fn verdict(name: Seq<char>, code: Seq<char>, runtime: Seq<char>) -> Option<
    ValidationError,
> {
    if name_verdict(name) is Some {
        name_verdict(name)
    } else {
        body_verdict(code, runtime)
    }
}

/// Whether a character may stand in a function name, given whether it is
/// alphanumeric.
pub fn name_char_allowed(c: char, alphanumeric: bool) -> (ok: bool)
    ensures
        ok == (alphanumeric || c == '-' || c == '_'),
{
    alphanumeric || c == '-' || c == '_'
}

/// Whether every character of `name` is alphanumeric, a hyphen or an
/// underscore.
pub fn check_name_chars(name: &str) -> (ok: bool)
    ensures
        ok == name_chars_ok(name@),
{
    let mut ok = true;
    for c in it: name.chars()
        invariant
            it.seq() == name@,
            ok == (forall|i: int| 0 <= i < it.index() ==> name_char_ok(#[trigger] name@[i])),
    {
        if !name_char_allowed(c, is_alphanumeric(c)) {
            ok = false;
        }
    }
    ok
}

/// Judges source text: it must export a handler and hold none of the
/// forbidden constructs.
pub fn validate_javascript_syntax(code: &str) -> (result: Result<(), ValidationError>)
    ensures
        match result {
            Ok(_) => syntax_verdict(code@) is None,
            Err(e) => syntax_verdict(code@) == Some(e),
        },
{
    if !contains_text(code, "export default") && !contains_text(code, "module.exports") {
        return Err(ValidationError::MissingExport);
    }
    let table: [Forbidden; 6] = [
        Forbidden::RequireFsSingleQuoted,
        Forbidden::RequireFsDoubleQuoted,
        Forbidden::ImportFs,
        Forbidden::ProcessExit,
        Forbidden::Dirname,
        Forbidden::Filename,
    ];
    let mut k: usize = 0;
    while k < 6
        invariant
            k <= 6,
            table@ == seq![
                Forbidden::RequireFsSingleQuoted,
                Forbidden::RequireFsDoubleQuoted,
                Forbidden::ImportFs,
                Forbidden::ProcessExit,
                Forbidden::Dirname,
                Forbidden::Filename,
            ],
            is_substring("export default"@, code@) || is_substring("module.exports"@, code@),
            forall|j: int| 0 <= j < k ==> !is_substring((#[trigger] table@[j]).pattern(), code@),
        decreases 6 - k,
    {
        let which = table[k];
        if contains_text(code, which.pattern_text()) {
            return Err(ValidationError::ForbiddenPattern(which));
        }
        k += 1;
    }
    assert(!is_substring(table@[0].pattern(), code@));
    assert(!is_substring(table@[1].pattern(), code@));
    assert(!is_substring(table@[2].pattern(), code@));
    assert(!is_substring(table@[3].pattern(), code@));
    assert(!is_substring(table@[4].pattern(), code@));
    assert(!is_substring(table@[5].pattern(), code@));
    Ok(())
}

/// Judges a request against every rule, in order.
pub fn validate_function(request: &CreateFunctionRequest) -> (result: Result<(), ValidationError>)
    ensures
        match result {
            Ok(_) => verdict(request.name@, request.code@, request.runtime@) is None,
            Err(e) => verdict(request.name@, request.code@, request.runtime@) == Some(e),
        },
{
    if request.name.as_str().is_empty() {
        return Err(ValidationError::EmptyName);
    }
    if !check_name_chars(request.name.as_str()) {
        return Err(ValidationError::InvalidName);
    }
    if request.name.as_str().as_bytes().len() > MAX_NAME_BYTES {
        return Err(ValidationError::NameTooLong);
    }
    if request.code.as_str().is_empty() {
        return Err(ValidationError::EmptyCode);
    }
    if request.code.as_str().as_bytes().len() > MAX_CODE_BYTES {
        return Err(ValidationError::CodeTooLarge);
    }
    if request.runtime != String::from_str("v8") {
        return Err(ValidationError::UnsupportedRuntime);
    }
    validate_javascript_syntax(request.code.as_str())
}

} // verus!
