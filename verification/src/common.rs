//! What the `xcodebuild` commands have in common: the action, the build
//! configuration, the SDK, the target, and the command line made of them.

use vstd::prelude::*;

verus! {

/// Why a command line could not be made.
#[derive(Debug, Clone, Copy, PartialEq, Eq, Structural)]
pub enum CommandError {
    /// A target was given that names neither a project nor a workspace.
    MissingTarget,
}

impl CommandError {
    /// The message of the failure.
    pub open spec fn message(self) -> Seq<char> {
        "Neither project nor workspace is specified"@
    }

    /// The message of the failure.
    pub fn to_string(&self) -> (out: String)
        ensures
            out@ == self.message(),
    {
        String::from_str("Neither project nor workspace is specified")
    }
}

/// What `xcodebuild` is asked to do.
#[derive(Debug, Clone, Copy, PartialEq, Eq, Structural)]
pub enum XcodebuildCommandAction {
    Build,
    Test,
    Archive,
    ExportArchive,
}

impl XcodebuildCommandAction {
    /// The action as `xcodebuild` takes it.
    pub open spec fn command_text(self) -> Seq<char> {
        match self {
            XcodebuildCommandAction::Build => "build"@,
            XcodebuildCommandAction::Test => "test"@,
            XcodebuildCommandAction::Archive => "archive"@,
            XcodebuildCommandAction::ExportArchive => "-exportArchive"@,
        }
    }

    /// The action as `xcodebuild` takes it.
    pub fn command_string(&self) -> (out: String)
        ensures
            out@ == self.command_text(),
    {
        match self {
            XcodebuildCommandAction::Build => String::from_str("build"),
            XcodebuildCommandAction::Test => String::from_str("test"),
            XcodebuildCommandAction::Archive => String::from_str("archive"),
            XcodebuildCommandAction::ExportArchive => String::from_str("-exportArchive"),
        }
    }
}

/// The build configuration.
#[derive(Debug, Clone, Copy, PartialEq, Eq, Structural)]
pub enum Configuration {
    Debug,
    Release,
}

impl Configuration {
    /// The configuration as `xcodebuild` takes it.
    pub open spec fn command_text(self) -> Seq<char> {
        match self {
            Configuration::Debug => "Debug"@,
            Configuration::Release => "Release"@,
        }
    }

    /// The configuration as it is written on the command line of this
    /// tool.
    pub open spec fn display_text(self) -> Seq<char> {
        match self {
            Configuration::Debug => "debug"@,
            Configuration::Release => "release"@,
        }
    }

    /// The configuration as `xcodebuild` takes it.
    pub fn command_string(&self) -> (out: String)
        ensures
            out@ == self.command_text(),
    {
        match self {
            Configuration::Debug => String::from_str("Debug"),
            Configuration::Release => String::from_str("Release"),
        }
    }

    /// The configuration as it is written on the command line of this
    /// tool.
    pub fn to_string(&self) -> (out: String)
        ensures
            out@ == self.display_text(),
    {
        match self {
            Configuration::Debug => String::from_str("debug"),
            Configuration::Release => String::from_str("release"),
        }
    }
}

impl Default for Configuration {
    fn default() -> (out: Configuration)
        ensures
            out == Configuration::Debug,
    {
        Configuration::Debug
    }
}

/// The SDK to build against.
#[derive(Debug, Clone, Copy, PartialEq, Eq, Structural)]
pub enum SDK {
    Iphoneos,
    Macosx,
}

impl SDK {
    /// The SDK as `xcodebuild` takes it.
    pub open spec fn command_text(self) -> Seq<char> {
        match self {
            SDK::Iphoneos => "iphoneos"@,
            SDK::Macosx => "macosx"@,
        }
    }

    /// The SDK as `xcodebuild` takes it.
    pub fn command_string(&self) -> (out: String)
        ensures
            out@ == self.command_text(),
    {
        match self {
            SDK::Iphoneos => String::from_str("iphoneos"),
            SDK::Macosx => String::from_str("macosx"),
        }
    }

    /// The SDK as it is written on the command line of this tool.
    pub fn to_string(&self) -> (out: String)
        ensures
            out@ == self.command_text(),
    {
        self.command_string()
    }
}

/// The platform to upload for.
#[derive(Debug, Clone, Copy, PartialEq, Eq, Structural)]
pub enum UploadTarget {
    Ios,
    Macos,
}

impl UploadTarget {
    /// The platform as `altool` takes it.
    pub open spec fn command_text(self) -> Seq<char> {
        match self {
            UploadTarget::Ios => "ios"@,
            UploadTarget::Macos => "macos"@,
        }
    }

    /// The platform as `altool` takes it.
    pub fn command_string(&self) -> (out: String)
        ensures
            out@ == self.command_text(),
    {
        match self {
            UploadTarget::Ios => String::from_str("ios"),
            UploadTarget::Macos => String::from_str("macos"),
        }
    }

    /// The platform as it is written on the command line of this tool.
    pub fn to_string(&self) -> (out: String)
        ensures
            out@ == self.command_text(),
    {
        self.command_string()
    }
}

/// The text of `value`, where there is one.
pub open spec fn text_of(value: Option<String>) -> Option<Seq<char>> {
    match value {
        Some(s) => Some(s@),
        None => None,
    }
}

/// The argument that hands a target to `xcodebuild`: the project where
/// one is given, else the workspace; none where neither is given.
pub open spec fn target_argument(project: Option<Seq<char>>, workspace: Option<Seq<char>>) -> Option<
    Seq<char>,
> {
    if project is Some {
        Some("-project "@ + project->0)
    } else if workspace is Some {
        Some("-workspace "@ + workspace->0)
    } else {
        None
    }
}

/// What is built: a project or a workspace.
#[derive(Debug, Clone)]
pub struct BuildTarget {
    project: Option<String>,
    workspace: Option<String>,
}

impl BuildTarget {
    /// The project, where one is given.
    pub closed spec fn project(&self) -> Option<Seq<char>> {
        text_of(self.project)
    }

    /// The workspace, where one is given.
    pub closed spec fn workspace(&self) -> Option<Seq<char>> {
        text_of(self.workspace)
    }

    /// The project where one is given, else the workspace where one is
    /// given.
    pub open spec fn location(&self) -> Option<Seq<char>> {
        if self.project() is Some {
            self.project()
        } else {
            self.workspace()
        }
    }

    /// The argument that hands the target to `xcodebuild`.
    pub open spec fn argument(&self) -> Option<Seq<char>> {
        target_argument(self.project(), self.workspace())
    }

    /// A target with copies of the given values.
    pub fn new(project: Option<&String>, workspace: Option<&String>) -> (out: BuildTarget)
        ensures
            out.project() == match project {
                Some(p) => Some(p@),
                None => None,
            },
            out.workspace() == match workspace {
                Some(w) => Some(w@),
                None => None,
            },
    {
        let project_copy = match project {
            Some(p) => Some(p.clone()),
            None => None,
        };
        let workspace_copy = match workspace {
            Some(w) => Some(w.clone()),
            None => None,
        };
        BuildTarget { project: project_copy, workspace: workspace_copy }
    }

    /// A copy of the target.
    pub fn duplicate(&self) -> (out: BuildTarget)
        ensures
            out.project() == self.project(),
            out.workspace() == self.workspace(),
    {
        BuildTarget::new(self.project.as_ref(), self.workspace.as_ref())
    }

    /// The project where one is given, else the workspace.
    pub fn project_or_workspace_string(&self) -> (out: Result<String, CommandError>)
        ensures
            match out {
                Ok(s) => self.location() == Some(s@),
                Err(e) => self.location() is None && e == CommandError::MissingTarget,
            },
    {
        if let Some(project) = &self.project {
            return Ok(project.clone());
        }
        if let Some(workspace) = &self.workspace {
            return Ok(workspace.clone());
        }
        Err(CommandError::MissingTarget)
    }

    /// The argument that hands the target to `xcodebuild`.
    pub fn project_or_workspace_argument(&self) -> (out: Result<String, CommandError>)
        ensures
            match out {
                Ok(s) => self.argument() == Some(s@),
                Err(e) => self.argument() is None && e == CommandError::MissingTarget,
            },
    {
        if let Some(project) = &self.project {
            return Ok(String::from_str("-project ").concat(project.as_str()));
        }
        if let Some(workspace) = &self.workspace {
            return Ok(String::from_str("-workspace ").concat(workspace.as_str()));
        }
        Err(CommandError::MissingTarget)
    }
}

/// `flag` followed by `value`, if there is a value; else nothing.
pub open spec fn flagged(flag: Seq<char>, value: Option<Seq<char>>) -> Seq<char> {
    match value {
        Some(v) => flag + v,
        None => Seq::empty(),
    }
}

/// The command line for `action`: `xcodebuild`, the action, and an
/// argument for each parameter that is given, in a fixed order. A target
/// is a project and a workspace, of which the project counts where both
/// are given; there is no command line for a target without either.
pub open spec fn command_line_of(
    action: XcodebuildCommandAction,
    target: Option<(Option<Seq<char>>, Option<Seq<char>>)>,
    scheme: Option<Seq<char>>,
    destination: Option<Seq<char>>,
    configuration: Option<Configuration>,
    archive_path: Option<Seq<char>>,
    sdk: Option<SDK>,
    export_path: Option<Seq<char>>,
    export_options: Option<Seq<char>>,
) -> Option<Seq<char>> {
    let target_text = match target {
        None => Some(Seq::empty()),
        Some((project, workspace)) => match target_argument(project, workspace) {
            Some(argument) => Some(" "@ + argument),
            None => None,
        },
    };
    match target_text {
        None => None,
        Some(target_text) => Some(
            "xcodebuild "@ + action.command_text() + target_text + flagged(" -scheme "@, scheme)
                + (match destination {
                Some(d) => " -destination '"@ + d + "'"@,
                None => Seq::empty(),
            }) + flagged(
                " -configuration "@,
                match configuration {
                    Some(c) => Some(c.command_text()),
                    None => None,
                },
            ) + flagged(" -archivePath "@, archive_path) + flagged(
                " -sdk "@,
                match sdk {
                    Some(s) => Some(s.command_text()),
                    None => None,
                },
            ) + flagged(" -exportPath "@, export_path) + flagged(
                " -exportOptionsPlist "@,
                export_options,
            ),
        ),
    }
}

/// Makes `flag` followed by `value`, if there is a value; else nothing.
fn flag_with(flag: &str, value: Option<&String>) -> (out: String)
    ensures
        out@ == flagged(
            flag@,
            match value {
                Some(v) => Some(v@),
                None => None,
            },
        ),
{
    match value {
        Some(v) => String::from_str(flag).concat(v.as_str()),
        None => String::new(),
    }
}

/// The parameters of one `xcodebuild` command.
#[derive(Debug)]
pub struct XcodebuildParams {
    pub action: XcodebuildCommandAction,
    pub scheme: Option<String>,
    pub destination: Option<String>,
    pub configuration: Option<Configuration>,
    pub target: Option<BuildTarget>,
    pub sdk: Option<SDK>,
    pub archive_path: Option<String>,
    pub export_path: Option<String>,
    pub export_options: Option<String>,
}

impl XcodebuildParams {
    /// The command line of the parameters. There is none where the target
    /// names neither a project nor a workspace.
    pub open spec fn command_line(&self) -> Option<Seq<char>> {
        command_line_of(
            self.action,
            match self.target {
                Some(target) => Some((target.project(), target.workspace())),
                None => None,
            },
            text_of(self.scheme),
            text_of(self.destination),
            self.configuration,
            text_of(self.archive_path),
            self.sdk,
            text_of(self.export_path),
            text_of(self.export_options),
        )
    }

    /// The parameters of `action` with nothing else set.
    pub fn new(action: XcodebuildCommandAction) -> (out: Self)
        ensures
            out.action == action,
            out.scheme is None,
            out.destination is None,
            out.configuration is None,
            out.target is None,
            out.sdk is None,
            out.archive_path is None,
            out.export_path is None,
            out.export_options is None,
    {
        Self {
            action,
            scheme: None,
            destination: None,
            configuration: None,
            target: None,
            sdk: None,
            archive_path: None,
            export_path: None,
            export_options: None,
        }
    }

    /// Makes the command line.
    pub fn make_xcodebuild_command(&self) -> (out: Result<String, CommandError>)
        ensures
            match out {
                Ok(command) => self.command_line() == Some(command@),
                Err(e) => self.command_line() is None && e == CommandError::MissingTarget,
            },
    {
        let target = match &self.target {
            None => String::new(),
            Some(target) => match target.project_or_workspace_argument() {
                Ok(argument) => String::from_str(" ").concat(argument.as_str()),
                Err(e) => return Err(e),
            },
        };
        let destination = match &self.destination {
            Some(d) => String::from_str(" -destination '").concat(d.as_str()).concat("'"),
            None => String::new(),
        };
        let configuration = match &self.configuration {
            Some(c) => Some(c.command_string()),
            None => None,
        };
        let sdk = match &self.sdk {
            Some(s) => Some(s.command_string()),
            None => None,
        };
        let command = String::from_str("xcodebuild ").concat(self.action.command_string().as_str());
        let command = command.concat(target.as_str());
        let command = command.concat(flag_with(" -scheme ", self.scheme.as_ref()).as_str());
        let command = command.concat(destination.as_str());
        let command = command.concat(
            flag_with(" -configuration ", configuration.as_ref()).as_str(),
        );
        let command = command.concat(
            flag_with(" -archivePath ", self.archive_path.as_ref()).as_str(),
        );
        let command = command.concat(flag_with(" -sdk ", sdk.as_ref()).as_str());
        let command = command.concat(
            flag_with(" -exportPath ", self.export_path.as_ref()).as_str(),
        );
        let command = command.concat(
            flag_with(" -exportOptionsPlist ", self.export_options.as_ref()).as_str(),
        );
        Ok(command)
    }

    /// The same parameters with the export options set.
    pub fn with_export_options(self, export_options: String) -> (out: Self)
        ensures
            out == (Self { export_options: Some(export_options), ..self }),
    {
        let mut out = self;
        out.export_options = Some(export_options);
        out
    }

    /// The same parameters with the export path set.
    pub fn with_export_path(self, export_path: String) -> (out: Self)
        ensures
            out == (Self { export_path: Some(export_path), ..self }),
    {
        let mut out = self;
        out.export_path = Some(export_path);
        out
    }

    /// The same parameters with the scheme set.
    pub fn with_scheme(self, scheme: String) -> (out: Self)
        ensures
            out == (Self { scheme: Some(scheme), ..self }),
    {
        let mut out = self;
        out.scheme = Some(scheme);
        out
    }

    /// The same parameters with the destination set.
    pub fn with_destination(self, destination: String) -> (out: Self)
        ensures
            out == (Self { destination: Some(destination), ..self }),
    {
        let mut out = self;
        out.destination = Some(destination);
        out
    }

    /// The same parameters with the configuration set.
    pub fn with_configuration(self, configuration: Configuration) -> (out: Self)
        ensures
            out == (Self { configuration: Some(configuration), ..self }),
    {
        let mut out = self;
        out.configuration = Some(configuration);
        out
    }

    /// The same parameters with the target set.
    pub fn with_target(self, target: BuildTarget) -> (out: Self)
        ensures
            out == (Self { target: Some(target), ..self }),
    {
        let mut out = self;
        out.target = Some(target);
        out
    }

    /// The same parameters with the SDK set.
    pub fn with_sdk(self, sdk: SDK) -> (out: Self)
        ensures
            out == (Self { sdk: Some(sdk), ..self }),
    {
        let mut out = self;
        out.sdk = Some(sdk);
        out
    }

    /// The same parameters with the archive path set.
    pub fn with_archive_path(self, archive_path: String) -> (out: Self)
        ensures
            out == (Self { archive_path: Some(archive_path), ..self }),
    {
        let mut out = self;
        out.archive_path = Some(archive_path);
        out
    }
}

} // verus!
