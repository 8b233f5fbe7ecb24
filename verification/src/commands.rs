//! The command lines that build, test, archive, export, upload, notarize
//! and sign. The functions here make the command lines; running them is
//! left to the caller.

use crate::artifacts::{join_path, joined_path};
use crate::common::{
    command_line_of, text_of, BuildTarget, CommandError, Configuration, UploadTarget,
    XcodebuildCommandAction, XcodebuildParams, SDK,
};
use crate::text::{chars_of, decimal, decimal_string, string_of_range, string_views, trim, trim_bounds};
use vstd::prelude::*;

verus! {

/// The command line that builds the scheme of a project or workspace.
pub fn build(
    scheme: &String,
    destination: &String,
    configuration: &Configuration,
    project: &Option<String>,
    workspace: &Option<String>,
) -> (out: Result<String, CommandError>)
    ensures
        match out {
            Ok(command) => command_line_of(
                XcodebuildCommandAction::Build,
                Some((text_of(*project), text_of(*workspace))),
                Some(scheme@),
                Some(destination@),
                Some(*configuration),
                None,
                None,
                None,
                None,
            ) == Some(command@),
            Err(e) => e == CommandError::MissingTarget && project is None && workspace is None,
        },
{
    let target = BuildTarget::new(project.as_ref(), workspace.as_ref());
    let params = XcodebuildParams::new(XcodebuildCommandAction::Build).with_scheme(
        scheme.clone(),
    ).with_destination(destination.clone()).with_configuration(*configuration).with_target(target);
    params.make_xcodebuild_command()
}

/// The command line that tests the scheme of a project or workspace.
pub fn test(
    scheme: &String,
    destination: &String,
    configuration: &Configuration,
    project: &Option<String>,
    workspace: &Option<String>,
) -> (out: Result<String, CommandError>)
    ensures
        match out {
            Ok(command) => command_line_of(
                XcodebuildCommandAction::Test,
                Some((text_of(*project), text_of(*workspace))),
                Some(scheme@),
                Some(destination@),
                Some(*configuration),
                None,
                None,
                None,
                None,
            ) == Some(command@),
            Err(e) => e == CommandError::MissingTarget && project is None && workspace is None,
        },
{
    let target = BuildTarget::new(project.as_ref(), workspace.as_ref());
    let params = XcodebuildParams::new(XcodebuildCommandAction::Test).with_scheme(
        scheme.clone(),
    ).with_destination(destination.clone()).with_configuration(*configuration).with_target(target);
    params.make_xcodebuild_command()
}

/// The command line that archives the scheme of a project or workspace to
/// `output`.
pub fn archive(
    scheme: &String,
    destination: &String,
    configuration: &Configuration,
    sdk: &SDK,
    output: &String,
    project: &Option<String>,
    workspace: &Option<String>,
) -> (out: Result<String, CommandError>)
    ensures
        match out {
            Ok(command) => command_line_of(
                XcodebuildCommandAction::Archive,
                Some((text_of(*project), text_of(*workspace))),
                Some(scheme@),
                Some(destination@),
                Some(*configuration),
                Some(output@),
                Some(*sdk),
                None,
                None,
            ) == Some(command@),
            Err(e) => e == CommandError::MissingTarget && project is None && workspace is None,
        },
{
    let target = BuildTarget::new(project.as_ref(), workspace.as_ref());
    let params = XcodebuildParams::new(XcodebuildCommandAction::Archive).with_scheme(
        scheme.clone(),
    ).with_destination(destination.clone()).with_configuration(*configuration).with_target(
        target,
    ).with_sdk(*sdk).with_archive_path(output.clone());
    params.make_xcodebuild_command()
}

/// The command line that exports the archive at `archive_path` to
/// `export_path` as `export_options` says.
pub fn export_archive(archive_path: &String, export_options: &String, export_path: &String) -> (out:
    Result<String, CommandError>)
    ensures
        out is Ok,
        command_line_of(
            XcodebuildCommandAction::ExportArchive,
            None,
            None,
            None,
            None,
            Some(archive_path@),
            None,
            Some(export_path@),
            Some(export_options@),
        ) == Some(out->Ok_0@),
{
    let params = XcodebuildParams::new(XcodebuildCommandAction::ExportArchive).with_archive_path(
        archive_path.clone(),
    ).with_export_options(export_options.clone()).with_export_path(export_path.clone());
    params.make_xcodebuild_command()
}

/// The command line that uploads an application file.
pub open spec fn xcrun_command(
    target: UploadTarget,
    app_file_path: Seq<char>,
    username: Seq<char>,
    password: Seq<char>,
) -> Seq<char> {
    "xcrun altool --upload-app -t "@ + target.command_text() + " -f "@ + app_file_path + " -u "@
        + username + " -p "@ + password
}

/// Makes the command line that uploads an application file.
pub fn make_xcrun_command(target: &UploadTarget, app_file_path: &str, username: &str, password: &str)
    -> (out: String)
    ensures
        out@ == xcrun_command(*target, app_file_path@, username@, password@),
{
    String::from_str("xcrun altool --upload-app -t ").concat(
        target.command_string().as_str(),
    ).concat(" -f ").concat(app_file_path).concat(" -u ").concat(username).concat(" -p ").concat(
        password,
    )
}

/// The command line that uploads the application file at `app_file_path`.
pub fn upload(target: &UploadTarget, app_file_path: &str, username: &str, password: &str) -> (out:
    Result<String, CommandError>)
    ensures
        out is Ok,
        out->Ok_0@ == xcrun_command(*target, app_file_path@, username@, password@),
{
    Ok(make_xcrun_command(target, app_file_path, username, password))
}

/// The command line that submits a file for notarization and waits for
/// the result.
pub open spec fn notarytool_submit_command(
    file_path: Seq<char>,
    apple_id: Seq<char>,
    password: Seq<char>,
    team_id: Seq<char>,
) -> Seq<char> {
    "xcrun notarytool submit "@ + file_path + " --apple-id "@ + apple_id + " --password "@
        + password + " --team-id "@ + team_id + " --wait"@
}

/// The command line that staples the notarization ticket to a file.
pub open spec fn stapler_staple_command(file_path: Seq<char>) -> Seq<char> {
    "xcrun stapler staple "@ + file_path
}

/// Makes the command line that submits a file for notarization.
pub fn make_notarytool_submit_command(
    file_path: &str,
    apple_id: &str,
    password: &str,
    team_id: &str,
) -> (out: String)
    ensures
        out@ == notarytool_submit_command(file_path@, apple_id@, password@, team_id@),
{
    String::from_str("xcrun notarytool submit ").concat(file_path).concat(" --apple-id ").concat(
        apple_id,
    ).concat(" --password ").concat(password).concat(" --team-id ").concat(team_id).concat(
        " --wait",
    )
}

/// Makes the command line that staples the notarization ticket to a file.
pub fn make_stapler_staple_command(file_path: &str) -> (out: String)
    ensures
        out@ == stapler_staple_command(file_path@),
{
    String::from_str("xcrun stapler staple ").concat(file_path)
}

/// The command lines that notarize a file, in the order in which they are
/// to run: the submission, then the stapling.
pub fn notarize(file_path: &str, apple_id: &str, password: &str, team_id: &str) -> (out: Result<
    Vec<String>,
    CommandError,
>)
    ensures
        out is Ok,
        string_views(out->Ok_0@) == seq![
            notarytool_submit_command(file_path@, apple_id@, password@, team_id@),
            stapler_staple_command(file_path@),
        ],
{
    let mut commands: Vec<String> = Vec::new();
    commands.push(make_notarytool_submit_command(file_path, apple_id, password, team_id));
    commands.push(make_stapler_staple_command(file_path));
    Ok(commands)
}

/// What is reported of the command `what` that ended with the status
/// `status` and wrote `stderr` to its error output.
pub open spec fn failure_report(what: Seq<char>, status: Seq<char>, stderr: Seq<char>) -> Seq<char> {
    what + " failed (exit "@ + status + "): "@ + trim(stderr)
}

/// Makes the report of a command that failed.
pub fn command_failure_message(what: &str, status: &str, stderr: &str) -> (out: String)
    ensures
        out@ == failure_report(what@, status@, stderr@),
{
    let chars = chars_of(stderr);
    assert(chars@.subrange(0, chars@.len() as int) =~= chars@);
    let (a, b) = trim_bounds(&chars, 0, chars.len());
    let trimmed = string_of_range(&chars, a, b);
    String::from_str(what).concat(" failed (exit ").concat(status).concat("): ").concat(
        trimmed.as_str(),
    )
}

/// The name of the keychain that holds the signing certificate.
pub open spec fn keychain_name() -> Seq<char> {
    "xctools-signing.keychain"@
}

/// The password of a new keychain, made of the time in nanoseconds and the
/// number of the process.
pub open spec fn keychain_password(timestamp: nat, process: nat) -> Seq<char> {
    "xctools-"@ + decimal(timestamp) + "-"@ + decimal(process)
}

/// Makes the password of a new keychain.
pub fn generate_keychain_password(timestamp: u128, process: u32) -> (out: String)
    ensures
        out@ == keychain_password(timestamp as nat, process as nat),
{
    String::from_str("xctools-").concat(decimal_string(timestamp).as_str()).concat("-").concat(
        decimal_string(process as u128).as_str(),
    )
}

/// The command lines that create a keychain, keep it open for an hour,
/// and unlock it.
pub open spec fn create_keychain_commands(name: Seq<char>, password: Seq<char>) -> Seq<Seq<char>> {
    seq![
        "security create-keychain -p "@ + password + " "@ + name,
        "security set-keychain-settings -lut 3600 "@ + name,
        "security unlock-keychain -p "@ + password + " "@ + name,
    ]
}

/// Makes the command lines that create and unlock a keychain.
pub fn create_keychain(keychain_name: &str, keychain_password: &str) -> (out: Vec<String>)
    ensures
        string_views(out@) == create_keychain_commands(keychain_name@, keychain_password@),
{
    let mut commands: Vec<String> = Vec::new();
    commands.push(
        String::from_str("security create-keychain -p ").concat(keychain_password).concat(
            " ",
        ).concat(keychain_name),
    );
    commands.push(
        String::from_str("security set-keychain-settings -lut 3600 ").concat(keychain_name),
    );
    commands.push(
        String::from_str("security unlock-keychain -p ").concat(keychain_password).concat(
            " ",
        ).concat(keychain_name),
    );
    commands
}

/// The command lines that import a certificate into a keychain and let
/// the signing tools use it without asking.
pub open spec fn import_certificate_commands(
    name: Seq<char>,
    password: Seq<char>,
    certificate_path: Seq<char>,
    certificate_password: Seq<char>,
) -> Seq<Seq<char>> {
    seq![
        "security import "@ + certificate_path + " -k "@ + name + " -P "@ + certificate_password
            + " -T /usr/bin/codesign -T /usr/bin/productsign"@,
        "security set-key-partition-list -S apple-tool:,apple: -s -k "@ + password + " "@ + name,
    ]
}

/// Makes the command lines that import a certificate into a keychain.
pub fn import_certificate(
    keychain_name: &str,
    keychain_password: &str,
    certificate_path: &str,
    certificate_password: &str,
) -> (out: Vec<String>)
    ensures
        string_views(out@) == import_certificate_commands(
            keychain_name@,
            keychain_password@,
            certificate_path@,
            certificate_password@,
        ),
{
    let mut commands: Vec<String> = Vec::new();
    commands.push(
        String::from_str("security import ").concat(certificate_path).concat(" -k ").concat(
            keychain_name,
        ).concat(" -P ").concat(certificate_password).concat(
            " -T /usr/bin/codesign -T /usr/bin/productsign",
        ),
    );
    commands.push(
        String::from_str("security set-key-partition-list -S apple-tool:,apple: -s -k ").concat(
            keychain_password,
        ).concat(" ").concat(keychain_name),
    );
    commands
}

/// The command line that makes a keychain the default.
pub open spec fn default_keychain_command(name: Seq<char>) -> Seq<char> {
    "security default-keychain -s "@ + name
}

/// Makes the command line that makes a keychain the default.
pub fn set_default_keychain(keychain_name: &str) -> (out: String)
    ensures
        out@ == default_keychain_command(keychain_name@),
{
    String::from_str("security default-keychain -s ").concat(keychain_name)
}

/// What setting up the signing takes: the command lines to run, in order,
/// and the message that reports the end.
#[derive(Debug, Clone)]
pub struct SigningPlan {
    pub commands: Vec<String>,
    pub message: String,
}

/// The message that reports that the signing is set up.
pub open spec fn signing_message(certificate_path: Seq<char>, profiles: nat) -> Seq<char> {
    "Code signing setup complete.\nKeychain: "@ + keychain_name() + "\nCertificate: "@
        + certificate_path + "\nProvisioning profiles installed: "@ + decimal(profiles) + "\n"@
}

/// Plans the set-up of code signing: a keychain of its own is created
/// with `keychain_password`, the certificate is imported into it, and it
/// is made the default. The provisioning profiles are installed by the
/// caller after the commands have run.
pub fn setup_signing(
    certificate_path: &str,
    certificate_password: &str,
    provisioning_profiles: &[String],
    keychain_password: &str,
) -> (out: Result<SigningPlan, CommandError>)
    ensures
        out is Ok,
        string_views(out->Ok_0.commands@) == create_keychain_commands(
            keychain_name(),
            keychain_password@,
        ) + import_certificate_commands(
            keychain_name(),
            keychain_password@,
            certificate_path@,
            certificate_password@,
        ) + seq![default_keychain_command(keychain_name())],
        out->Ok_0.message@ == signing_message(certificate_path@, provisioning_profiles@.len()),
{
    let name = "xctools-signing.keychain";
    let mut commands = create_keychain(name, keychain_password);
    let mut import = import_certificate(
        name,
        keychain_password,
        certificate_path,
        certificate_password,
    );
    commands.append(&mut import);
    commands.push(set_default_keychain(name));
    let count = provisioning_profiles.len();
    let message = String::from_str("Code signing setup complete.\nKeychain: ").concat(name).concat(
        "\nCertificate: ",
    ).concat(certificate_path).concat("\nProvisioning profiles installed: ").concat(
        decimal_string(count as u128).as_str(),
    ).concat("\n");
    Ok(SigningPlan { commands, message })
}

/// The directory in which the provisioning profiles of the user with the
/// home directory `home` are installed.
pub open spec fn profiles_directory(home: Seq<char>) -> Seq<char> {
    join_path(join_path(join_path(home, "Library"@), "MobileDevice"@), "Provisioning Profiles"@)
}

/// Makes the path of the directory in which provisioning profiles are
/// installed.
pub fn provisioning_profiles_directory(home: &str) -> (out: String)
    ensures
        out@ == profiles_directory(home@),
{
    let library = joined_path(home, "Library");
    let devices = joined_path(library.as_str(), "MobileDevice");
    joined_path(devices.as_str(), "Provisioning Profiles")
}

} // verus!
