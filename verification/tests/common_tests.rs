use xctools::common::{
    BuildTarget, Configuration, UploadTarget, XcodebuildCommandAction, XcodebuildParams, SDK,
};

#[test]
fn lib_test_build_target_with_project() {
    let target = BuildTarget::new(Some(&"TestProject.xcodeproj".to_string()), None);

    assert_eq!(
        target.project_or_workspace_string().unwrap(),
        "TestProject.xcodeproj"
    );
    assert_eq!(
        target.project_or_workspace_argument().unwrap(),
        "-project TestProject.xcodeproj"
    );
}

#[test]
fn lib_test_build_target_with_workspace() {
    let target = BuildTarget::new(None, Some(&"TestWorkspace.xcworkspace".to_string()));

    assert_eq!(
        target.project_or_workspace_string().unwrap(),
        "TestWorkspace.xcworkspace"
    );
    assert_eq!(
        target.project_or_workspace_argument().unwrap(),
        "-workspace TestWorkspace.xcworkspace"
    );
}

#[test]
fn lib_test_build_target_with_neither() {
    let target = BuildTarget::new(None, None);

    assert!(target.project_or_workspace_string().is_err());
    assert!(target.project_or_workspace_argument().is_err());
}

#[test]
fn lib_test_configuration_command_string() {
    assert_eq!(Configuration::Debug.command_string(), "Debug");
    assert_eq!(Configuration::Release.command_string(), "Release");
}

#[test]
fn build_test_configuration_command_string() {
    assert_eq!(Configuration::Debug.command_string(), "Debug");
    assert_eq!(Configuration::Release.command_string(), "Release");
}

#[test]
fn lib_test_configuration_display() {
    assert_eq!(Configuration::Debug.to_string(), "debug");
    assert_eq!(Configuration::Release.to_string(), "release");
}

#[test]
fn lib_test_build_command() {
    let target = BuildTarget::new(Some(&"TestProject.xcodeproj".to_string()), None);
    let params = &XcodebuildParams::new(XcodebuildCommandAction::Build)
        .with_scheme("TestScheme".to_string())
        .with_destination("iOS Simulator,name=iPhone 15 Pro".to_string())
        .with_configuration(Configuration::Debug)
        .with_target(target);
    let command = params.make_xcodebuild_command().unwrap();

    assert_eq!(
        command,
        "xcodebuild build -project TestProject.xcodeproj -scheme TestScheme -destination 'iOS Simulator,name=iPhone 15 Pro' -configuration Debug"
    );
}

#[test]
fn test_xcodebuild_command_action_strings() {
    assert_eq!(XcodebuildCommandAction::Build.command_string(), "build");
    assert_eq!(XcodebuildCommandAction::Test.command_string(), "test");
    assert_eq!(XcodebuildCommandAction::Archive.command_string(), "archive");
}

#[test]
fn test_sdk_command_string() {
    assert_eq!(SDK::Iphoneos.command_string(), "iphoneos");
    assert_eq!(SDK::Macosx.command_string(), "macosx");
}

#[test]
fn test_sdk_display() {
    assert_eq!(SDK::Iphoneos.to_string(), "iphoneos");
    assert_eq!(SDK::Macosx.to_string(), "macosx");
}

#[test]
fn test_configuration_default() {
    let default_config: Configuration = Default::default();
    assert_eq!(default_config.command_string(), "Debug");
    assert_eq!(default_config.to_string(), "debug");
}

#[test]
fn test_test_command() {
    let target = BuildTarget::new(Some(&"TestProject.xcodeproj".to_string()), None);
    let params = XcodebuildParams::new(XcodebuildCommandAction::Test)
        .with_scheme("TestScheme".to_string())
        .with_destination("iOS Simulator,name=iPhone 15 Pro".to_string())
        .with_configuration(Configuration::Release)
        .with_target(target);
    let command = params.make_xcodebuild_command().unwrap();

    assert_eq!(
        command,
        "xcodebuild test -project TestProject.xcodeproj -scheme TestScheme -destination 'iOS Simulator,name=iPhone 15 Pro' -configuration Release"
    );
}

#[test]
fn test_archive_command() {
    let target = BuildTarget::new(Some(&"TestProject.xcodeproj".to_string()), None);
    let params = XcodebuildParams::new(XcodebuildCommandAction::Archive)
        .with_scheme("TestScheme".to_string())
        .with_destination("iOS Simulator,name=iPhone 15 Pro".to_string())
        .with_configuration(Configuration::Release)
        .with_target(target)
        .with_archive_path("/path/to/archive.xcarchive".to_string());
    let command = params.make_xcodebuild_command().unwrap();

    assert_eq!(
        command,
        "xcodebuild archive -project TestProject.xcodeproj -scheme TestScheme -destination 'iOS Simulator,name=iPhone 15 Pro' -configuration Release -archivePath /path/to/archive.xcarchive"
    );
}

#[test]
fn test_command_with_sdk() {
    let target = BuildTarget::new(Some(&"TestProject.xcodeproj".to_string()), None);
    let params = XcodebuildParams::new(XcodebuildCommandAction::Build)
        .with_scheme("TestScheme".to_string())
        .with_destination("iOS Simulator,name=iPhone 15 Pro".to_string())
        .with_configuration(Configuration::Debug)
        .with_target(target)
        .with_sdk(SDK::Iphoneos);
    let command = params.make_xcodebuild_command().unwrap();

    assert_eq!(
        command,
        "xcodebuild build -project TestProject.xcodeproj -scheme TestScheme -destination 'iOS Simulator,name=iPhone 15 Pro' -configuration Debug -sdk iphoneos"
    );
}

#[test]
fn test_command_with_workspace() {
    let target = BuildTarget::new(None, Some(&"TestWorkspace.xcworkspace".to_string()));
    let params = XcodebuildParams::new(XcodebuildCommandAction::Build)
        .with_scheme("TestScheme".to_string())
        .with_destination("iOS Simulator,name=iPhone 15 Pro".to_string())
        .with_configuration(Configuration::Debug)
        .with_target(target);
    let command = params.make_xcodebuild_command().unwrap();

    assert_eq!(
        command,
        "xcodebuild build -workspace TestWorkspace.xcworkspace -scheme TestScheme -destination 'iOS Simulator,name=iPhone 15 Pro' -configuration Debug"
    );
}

#[test]
fn test_command_with_all_options() {
    let target = BuildTarget::new(None, Some(&"TestWorkspace.xcworkspace".to_string()));
    let params = XcodebuildParams::new(XcodebuildCommandAction::Archive)
        .with_scheme("TestScheme".to_string())
        .with_destination("Generic/iOS".to_string())
        .with_configuration(Configuration::Release)
        .with_target(target)
        .with_sdk(SDK::Macosx)
        .with_archive_path("/tmp/MyApp.xcarchive".to_string());
    let command = params.make_xcodebuild_command().unwrap();

    assert_eq!(
        command,
        "xcodebuild archive -workspace TestWorkspace.xcworkspace -scheme TestScheme -destination 'Generic/iOS' -configuration Release -archivePath /tmp/MyApp.xcarchive -sdk macosx"
    );
}

#[test]
fn test_command_error_with_invalid_target() {
    let target = BuildTarget::new(None, None);
    let params = XcodebuildParams::new(XcodebuildCommandAction::Build)
        .with_scheme("TestScheme".to_string())
        .with_destination("iOS Simulator,name=iPhone 15 Pro".to_string())
        .with_configuration(Configuration::Debug)
        .with_target(target);
    let result = params.make_xcodebuild_command();

    assert!(result.is_err());
    assert!(result
        .unwrap_err()
        .to_string()
        .contains("Neither project nor workspace is specified"));
}

#[test]
fn test_build_target_with_both_project_and_workspace() {
    // Edge case: if both are provided, project takes precedence
    let target = BuildTarget::new(
        Some(&"TestProject.xcodeproj".to_string()),
        Some(&"TestWorkspace.xcworkspace".to_string()),
    );

    assert_eq!(
        target.project_or_workspace_string().unwrap(),
        "TestProject.xcodeproj"
    );
    assert_eq!(
        target.project_or_workspace_argument().unwrap(),
        "-project TestProject.xcodeproj"
    );
}

#[test]
fn test_export_archive_command_with_export_path() {
    let params = XcodebuildParams::new(XcodebuildCommandAction::ExportArchive)
        .with_archive_path("/path/to/archive.xcarchive".to_string())
        .with_export_path("/path/to/export".to_string());
    let command = params.make_xcodebuild_command().unwrap();

    assert_eq!(
        command,
        "xcodebuild -exportArchive -archivePath /path/to/archive.xcarchive -exportPath /path/to/export"
    );
}

#[test]
fn test_export_archive_command_with_export_options() {
    let params = XcodebuildParams::new(XcodebuildCommandAction::ExportArchive)
        .with_archive_path("/path/to/archive.xcarchive".to_string())
        .with_export_options("/path/to/ExportOptions.plist".to_string());
    let command = params.make_xcodebuild_command().unwrap();

    assert_eq!(
        command,
        "xcodebuild -exportArchive -archivePath /path/to/archive.xcarchive -exportOptionsPlist /path/to/ExportOptions.plist"
    );
}

#[test]
fn test_export_archive_command_with_all_export_options() {
    let params = XcodebuildParams::new(XcodebuildCommandAction::ExportArchive)
        .with_archive_path("/path/to/archive.xcarchive".to_string())
        .with_export_path("/path/to/export".to_string())
        .with_export_options("/path/to/ExportOptions.plist".to_string());
    let command = params.make_xcodebuild_command().unwrap();

    assert_eq!(
        command,
        "xcodebuild -exportArchive -archivePath /path/to/archive.xcarchive -exportPath /path/to/export -exportOptionsPlist /path/to/ExportOptions.plist"
    );
}

#[test]
fn test_export_archive_action_string() {
    assert_eq!(
        XcodebuildCommandAction::ExportArchive.command_string(),
        "-exportArchive"
    );
}

#[test]
fn test_upload_target_display() {
    assert_eq!(UploadTarget::Ios.to_string(), "ios");
    assert_eq!(UploadTarget::Macos.to_string(), "macos");
}

#[test]
fn upload_target_command_string_names_the_platform() {
    assert_eq!(UploadTarget::Ios.command_string(), "ios");
    assert_eq!(UploadTarget::Macos.command_string(), "macos");
}

#[test]
fn parameters_start_with_nothing_set() {
    let params = XcodebuildParams::new(XcodebuildCommandAction::Build);
    assert_eq!(params.action, XcodebuildCommandAction::Build);
    assert!(params.scheme.is_none());
    assert!(params.destination.is_none());
    assert!(params.configuration.is_none());
    assert!(params.target.is_none());
    assert!(params.sdk.is_none());
    assert!(params.archive_path.is_none());
    assert!(params.export_path.is_none());
    assert!(params.export_options.is_none());
    assert_eq!(params.make_xcodebuild_command().unwrap(), "xcodebuild build");
}
