//! Setting the build number and the version number in the text of a
//! `project.pbxproj` file.

use crate::text::{
    chars_of, contains_substring, has_substring, lines_of, signed_decimal, signed_decimal_string,
    split_lines, string_of_range, string_views, trim, trim_bounds,
};
use vstd::prelude::*;

verus! {

/// `semver::Version`, a version number. It is carried through as it is;
/// nothing is said of what it holds.
#[verifier::external_type_specification]
#[verifier::external_body]
pub struct ExVersion(semver::Version);

/// The text that `semver` writes for a version: the three numbers between
/// dots, then the pre-release and the build where the version has them.
pub uninterp spec fn version_text(version: semver::Version) -> Seq<char>;

/// `ToString::to_string` on a `semver::Version`, which writes it through
/// its `Display`. The text depends on the version alone; it is the one
/// that `version_text` names.
#[verifier::external_body]
fn version_to_string(version: &semver::Version) -> (out: String)
    ensures
        out@ == version_text(*version),
{
    version.to_string()
}

/// The key of the build number.
pub open spec fn build_number_key() -> Seq<char> {
    "CURRENT_PROJECT_VERSION"@
}

/// The key of the version number.
pub open spec fn version_number_key() -> Seq<char> {
    "MARKETING_VERSION"@
}

/// The start of `line` that is kept as the indentation: as many
/// characters as trimming takes away.
pub open spec fn indentation(line: Seq<char>) -> Seq<char> {
    line.subrange(0, line.len() - trim(line).len())
}

/// `line` with the value of `key` set to `value`: where the line holds the
/// key and there is a value, the indentation, the key, ` = `, the value
/// and a semicolon; else the line as it is.
pub open spec fn replaced_line(line: Seq<char>, key: Seq<char>, value: Option<Seq<char>>) -> Seq<
    char,
> {
    if !has_substring(line, key) || value is None {
        line
    } else {
        indentation(line) + key + " = "@ + value->0 + ";"@
    }
}

/// Sets the value of `key` in `line`, where the line holds the key and
/// there is a value.
pub fn replace_key_value_line(line: &str, key: &str, value: &Option<String>) -> (out: String)
    ensures
        out@ == replaced_line(
            line@,
            key@,
            match *value {
                Some(v) => Some(v@),
                None => None,
            },
        ),
{
    let chars = chars_of(line);
    let key_chars = chars_of(key);
    let value = match value {
        Some(value) => value,
        None => return String::from_str(line),
    };
    if !contains_substring(&chars, &key_chars) {
        return String::from_str(line);
    }
    assert(chars@.subrange(0, chars@.len() as int) =~= chars@);
    let (a, b) = trim_bounds(&chars, 0, chars.len());
    let kept: usize = chars.len() - (b - a);
    let indent = string_of_range(&chars, 0, kept);
    indent.concat(key).concat(" = ").concat(value.as_str()).concat(";")
}

/// The text of a build number.
pub open spec fn build_number_text(build_number: Option<i32>) -> Option<Seq<char>> {
    match build_number {
        Some(n) => Some(signed_decimal(n as int)),
        None => None,
    }
}

/// The text of a version number.
pub open spec fn version_number_text(version_number: Option<semver::Version>) -> Option<Seq<char>> {
    match version_number {
        Some(v) => Some(version_text(v)),
        None => None,
    }
}

/// `line` with the build number and the version number set, each where
/// the line holds its key and a number is given.
pub open spec fn replaced_pbxproj_line(
    line: Seq<char>,
    build_number: Option<Seq<char>>,
    version_number: Option<Seq<char>>,
) -> Seq<char> {
    replaced_line(
        replaced_line(line, build_number_key(), build_number),
        version_number_key(),
        version_number,
    )
}

/// Sets the build number and the version number in `line`, given their
/// texts.
pub fn replace_pbxproj_line_with(
    line: &str,
    build_number: &Option<String>,
    version_number: &Option<String>,
) -> (out: String)
    ensures
        out@ == replaced_pbxproj_line(
            line@,
            match *build_number {
                Some(b) => Some(b@),
                None => None,
            },
            match *version_number {
                Some(v) => Some(v@),
                None => None,
            },
        ),
{
    let formatted_line = replace_key_value_line(line, "CURRENT_PROJECT_VERSION", build_number);
    replace_key_value_line(formatted_line.as_str(), "MARKETING_VERSION", version_number)
}

/// Writes the build number, where there is one.
fn build_number_string(build_number: &Option<i32>) -> (out: Option<String>)
    ensures
        out is Some == build_number is Some,
        out is Some ==> Some(out->0@) == build_number_text(*build_number),
{
    match build_number {
        Some(n) => Some(signed_decimal_string(*n as i64)),
        None => None,
    }
}

/// Writes the version number, where there is one.
fn version_number_string(version_number: &Option<semver::Version>) -> (out: Option<String>)
    ensures
        out is Some == version_number is Some,
        out is Some ==> Some(out->0@) == version_number_text(*version_number),
{
    match version_number {
        Some(v) => Some(version_to_string(v)),
        None => None,
    }
}

/// Sets the build number and the version number in `line`.
pub fn replace_pbxproj_line(
    line: &str,
    build_number: &Option<i32>,
    version_number: &Option<semver::Version>,
) -> (out: String)
    ensures
        out@ == replaced_pbxproj_line(
            line@,
            build_number_text(*build_number),
            version_number_text(*version_number),
        ),
{
    let build_text = build_number_string(build_number);
    let version_text = version_number_string(version_number);
    replace_pbxproj_line_with(line, &build_text, &version_text)
}

/// The lines `lines` with a line feed between each two.
pub open spec fn joined_lines(lines: Seq<Seq<char>>) -> Seq<char>
    decreases lines.len(),
{
    if lines.len() == 0 {
        Seq::empty()
    } else if lines.len() == 1 {
        lines[0]
    } else {
        joined_lines(lines.drop_last()) + "\n"@ + lines.last()
    }
}

/// The lines of `lines` with the numbers set.
pub open spec fn replaced_lines(
    lines: Seq<Seq<char>>,
    build_number: Option<Seq<char>>,
    version_number: Option<Seq<char>>,
) -> Seq<Seq<char>> {
    Seq::new(lines.len(), |i: int| replaced_pbxproj_line(lines[i], build_number, version_number))
}

/// The text of a project file with the numbers set in each of its lines.
pub open spec fn updated_content(
    content: Seq<char>,
    build_number: Option<Seq<char>>,
    version_number: Option<Seq<char>>,
) -> Seq<char> {
    joined_lines(replaced_lines(lines_of(content), build_number, version_number))
}

/// The text of `value`, or `UNSET` where there is none.
pub open spec fn or_unset(value: Option<Seq<char>>) -> Seq<char> {
    match value {
        Some(v) => v,
        None => "UNSET"@,
    }
}

/// The message that reports what was set in the file at `path`.
pub open spec fn update_message(
    path: Seq<char>,
    build_number: Option<Seq<char>>,
    version_number: Option<Seq<char>>,
) -> Seq<char> {
    "Successfully updated project.pbxproj at: "@ + path + "\nBuild number set to: "@ + or_unset(
        build_number,
    ) + "\nVersion number set to: "@ + or_unset(version_number) + "\n"@
}

/// What bumping the version comes to: the new text of the project file
/// and the message that reports it.
#[derive(Debug, Clone)]
pub struct VersionBump {
    pub content: String,
    pub message: String,
}

/// The text `value`, or `UNSET` where there is none.
fn text_or_unset(value: &Option<String>) -> (out: String)
    ensures
        out@ == or_unset(
            match *value {
                Some(v) => Some(v@),
                None => None,
            },
        ),
{
    match value {
        Some(v) => v.clone(),
        None => String::from_str("UNSET"),
    }
}

/// Sets the build number and the version number in the text `content` of
/// the project file at `path`.
pub fn bump_version(
    content: &str,
    path: &str,
    build_number: &Option<i32>,
    version_number: &Option<semver::Version>,
) -> (out: VersionBump)
    ensures
        out.content@ == updated_content(
            content@,
            build_number_text(*build_number),
            version_number_text(*version_number),
        ),
        out.message@ == update_message(
            path@,
            build_number_text(*build_number),
            version_number_text(*version_number),
        ),
{
    let build_text = build_number_string(build_number);
    let version_text = version_number_string(version_number);
    let ghost build_view = build_number_text(*build_number);
    let ghost version_view = version_number_text(*version_number);
    let lines = split_lines(content);
    let ghost replaced = replaced_lines(string_views(lines@), build_view, version_view);
    let mut updated = String::new();
    let mut i: usize = 0;
    while i < lines.len()
        invariant
            i <= lines.len(),
            replaced == replaced_lines(string_views(lines@), build_view, version_view),
            build_text is Some == build_view is Some,
            build_text is Some ==> Some(build_text->0@) == build_view,
            version_text is Some == version_view is Some,
            version_text is Some ==> Some(version_text->0@) == version_view,
            updated@ == joined_lines(replaced.take(i as int)),
        decreases lines.len() - i,
    {
        let line = replace_pbxproj_line_with(lines[i].as_str(), &build_text, &version_text);
        proof {
            assert(replaced.take(i + 1).drop_last() =~= replaced.take(i as int));
        }
        if i > 0 {
            updated = updated.concat("\n");
        }
        updated = updated.concat(line.as_str());
        i += 1;
    }
    assert(replaced.take(lines.len() as int) =~= replaced);
    let message = String::from_str("Successfully updated project.pbxproj at: ").concat(
        path,
    ).concat("\nBuild number set to: ").concat(text_or_unset(&build_text).as_str()).concat(
        "\nVersion number set to: ",
    ).concat(text_or_unset(&version_text).as_str()).concat("\n");
    VersionBump { content: updated, message }
}

} // verus!
