use xctools::artifacts::{
    get_default_derived_data_base, get_user_configured_derived_data_base,
    get_xcode_derived_data_base,
};
use xctools::contributors::{
    extract_email_out_of_contributors_line, extract_name_out_of_contributors_line,
    merge_contributors_with_similar_names, patch_contributor_name, Contributor,
};
use xctools::errors::AcknowledgementsError;
use xctools::packages::{make_packages_acknowledgements, PackageAcknowledgement};
use xctools::report::{make_final_output_path, Acknowledgements};
use xctools::text_map::TextMap;

#[test]
fn test_contributor_creation() {
    let name = "John Doe".to_string();
    let email = Some("john@example.com".to_string());
    let contributions = 5;

    let contributor = Contributor::new(&name, email.as_ref(), &contributions);

    assert_eq!(contributor.name, "John Doe");
    assert_eq!(contributor.email, Some("john@example.com".to_string()));
    assert_eq!(contributor.contributions, 5);
}

#[test]
fn test_contributor_without_email() {
    let contributor = Contributor {
        name: "Jane Smith".to_string(),
        email: Some("jane@example.com".to_string()),
        contributions: 3,
    };

    let without_email = contributor.without_email();

    assert_eq!(without_email.name, "Jane Smith");
    assert_eq!(without_email.email, None);
    assert_eq!(without_email.contributions, 3);
}

#[test]
fn test_contributor_first_name() {
    let contributor = Contributor {
        name: "John Doe".to_string(),
        email: None,
        contributions: 1,
    };

    assert_eq!(contributor.first_name(), Some("John".to_string()));

    let single_name_contributor = Contributor {
        name: "John".to_string(),
        email: None,
        contributions: 1,
    };

    assert_eq!(single_name_contributor.first_name(), Some("John".to_string()));

    let empty_name_contributor = Contributor {
        name: "".to_string(),
        email: None,
        contributions: 1,
    };

    assert_eq!(empty_name_contributor.first_name(), None);
}

#[test]
fn test_contributor_has_only_single_name() {
    let single_name = Contributor {
        name: "John".to_string(),
        email: None,
        contributions: 1,
    };
    assert!(single_name.has_only_a_single_name());

    let multiple_names = Contributor {
        name: "John Doe".to_string(),
        email: None,
        contributions: 1,
    };
    assert!(!multiple_names.has_only_a_single_name());
}

#[test]
fn test_package_acknowledgement_creation() {
    let name = "TestPackage".to_string();
    let license = Some("MIT".to_string());
    let author = "TestAuthor".to_string();
    let url = "https://github.com/testauthor/testpackage".to_string();

    let package = PackageAcknowledgement::new(&name, license.as_ref(), &author, &url);

    assert_eq!(package.name, "TestPackage");
    assert_eq!(package.license, Some("MIT".to_string()));
    assert_eq!(package.author, "TestAuthor");
    assert_eq!(package.url, "https://github.com/testauthor/testpackage");
}

#[test]
fn test_acknowledgements_creation() {
    let packages = vec![PackageAcknowledgement {
        name: "Package1".to_string(),
        license: Some("MIT".to_string()),
        author: "Author1".to_string(),
        url: "https://github.com/author1/package1".to_string(),
    }];

    let contributors = vec![Contributor {
        name: "John Doe".to_string(),
        email: None,
        contributions: 5,
    }];

    let acknowledgements = Acknowledgements::new(&packages, &contributors);

    assert_eq!(acknowledgements.packages.len(), 1);
    assert_eq!(acknowledgements.contributors.len(), 1);
    assert_eq!(acknowledgements.packages[0].name, "Package1");
    assert_eq!(acknowledgements.contributors[0].name, "John Doe");
}

#[test]
fn test_extract_name_from_contributors_line() {
    let line = "John Doe <john@example.com>";
    let name = extract_name_out_of_contributors_line(line);
    assert_eq!(name, Some("John Doe".to_string()));

    let line_with_spaces = "  Jane Smith  <jane@example.com>";
    let name = extract_name_out_of_contributors_line(line_with_spaces);
    assert_eq!(name, Some("Jane Smith".to_string()));

    let invalid_line = "Invalid line without brackets";
    let name = extract_name_out_of_contributors_line(invalid_line);
    assert_eq!(name, None);

    let empty_name = " <email@example.com>";
    let name = extract_name_out_of_contributors_line(empty_name);
    assert_eq!(name, None);
}

#[test]
fn test_extract_email_from_contributors_line() {
    let line = "John Doe <john@example.com>";
    let email = extract_email_out_of_contributors_line(line);
    assert_eq!(email, Some("john@example.com".to_string()));

    let invalid_line = "John Doe john@example.com";
    let email = extract_email_out_of_contributors_line(invalid_line);
    assert_eq!(email, None);

    let malformed_brackets = "John Doe >john@example.com<";
    let email = extract_email_out_of_contributors_line(malformed_brackets);
    assert_eq!(email, None);
}

#[test]
fn test_patch_contributor_name() {
    assert_eq!(
        patch_contributor_name(&"kamaal111".to_string()),
        "Kamaal Farah"
    );
    assert_eq!(
        patch_contributor_name(&"Kamaal".to_string()),
        "Kamaal Farah"
    );
    assert_eq!(
        patch_contributor_name(&"Other Name".to_string()),
        "Other Name"
    );
}

#[test]
fn test_make_final_output_path() {
    let file_path = "./output.json".to_string();
    let result = make_final_output_path(&file_path, false);
    assert_eq!(result, "./output.json");

    let dir_path = "./non_existent_directory/".to_string();
    let result = make_final_output_path(&dir_path, false);
    assert_eq!(result, "./non_existent_directory/");
}

#[test]
fn test_make_packages_acknowledgements() {
    let mut packages_urls = TextMap::new();
    packages_urls.insert(
        "Package1".to_string(),
        "https://github.com/author1/package1".to_string(),
    );
    packages_urls.insert(
        "Package2".to_string(),
        "https://github.com/author2/package2".to_string(),
    );

    let mut package_licenses = TextMap::new();
    package_licenses.insert("Package1".to_string(), "MIT License".to_string());

    let acknowledgements = make_packages_acknowledgements(&packages_urls, &package_licenses);

    assert_eq!(acknowledgements.len(), 2);

    let package1 = acknowledgements
        .iter()
        .find(|p| p.name == "Package1")
        .unwrap();
    assert_eq!(package1.author, "author1");
    assert_eq!(package1.license, Some("MIT License".to_string()));
    assert_eq!(package1.url, "https://github.com/author1/package1");

    let package2 = acknowledgements
        .iter()
        .find(|p| p.name == "Package2")
        .unwrap();
    assert_eq!(package2.author, "author2");
    assert_eq!(package2.license, None);
    assert_eq!(package2.url, "https://github.com/author2/package2");
}

#[test]
fn test_merge_contributors_with_similar_names() {
    let contributors = vec![
        Contributor {
            name: "John".to_string(),
            email: Some("john1@example.com".to_string()),
            contributions: 5,
        },
        Contributor {
            name: "John Doe".to_string(),
            email: Some("john2@example.com".to_string()),
            contributions: 3,
        },
        Contributor {
            name: "Jane Smith".to_string(),
            email: Some("jane@example.com".to_string()),
            contributions: 2,
        },
    ];

    let merged = merge_contributors_with_similar_names(&contributors);

    assert_eq!(merged.len(), 2);

    let john_contributor = merged.iter().find(|c| c.name.contains("John")).unwrap();
    assert_eq!(john_contributor.name, "John Doe");
    assert_eq!(john_contributor.contributions, 8);

    let jane_contributor = merged.iter().find(|c| c.name == "Jane Smith").unwrap();
    assert_eq!(jane_contributor.contributions, 2);
}

#[test]
fn test_make_final_output_path_with_actual_directory() {
    let dir_path = "/tmp/project/output".to_string();

    let result = make_final_output_path(&dir_path, true);

    assert_eq!(result, "/tmp/project/output/acknowledgements.json");
}

#[test]
fn test_get_packages_urls_file_not_found() {
    let error = AcknowledgementsError::ManifestReadError(
        "No such file or directory (os error 2)".to_string(),
    );

    assert!(error
        .to_string()
        .contains("Failed to read workspace-state.json"));
}

#[test]
fn test_get_packages_urls_invalid_json() {
    let error =
        AcknowledgementsError::ManifestParseError("key must be a string at line 1".to_string());

    assert!(error
        .to_string()
        .contains("Failed to parse workspace-state.json"));
}

#[test]
fn test_get_packages_licenses_directory_not_found() {
    let error = AcknowledgementsError::ChecksoutDirMissing("/tmp/non_existent".to_string());

    assert!(error
        .to_string()
        .contains("Failed to read packages directory contents"));
}

#[test]
fn test_write_acknowledgements_invalid_path() {
    let error = AcknowledgementsError::WriteError(
        "/non/existent/path/acknowledgements.json".to_string(),
    );

    assert!(error
        .to_string()
        .contains("Failed to write acknowledgements to file"));
}

#[test]
fn test_get_default_derived_data_base() {
    let result = get_default_derived_data_base(Some("/Users/developer"));
    assert!(result.is_ok());

    let path = result.unwrap();
    assert!(path.contains("Library/Developer/Xcode/DerivedData"));
}

#[test]
fn test_get_user_configured_derived_data_base_success() {
    let result = get_user_configured_derived_data_base(Some("/Volumes/Build/DerivedData\n"));
    assert!(result.is_none() || result.is_some());
    assert_eq!(result, Some("/Volumes/Build/DerivedData".to_string()));
}

#[test]
fn test_get_xcode_derived_data_base_fallback() {
    let result = get_xcode_derived_data_base(None, Some("/Users/developer"));
    assert!(result.is_ok());
    let path = result.unwrap();
    assert!(path.contains("Library/Developer/Xcode/DerivedData"));
}

#[test]
fn test_acknowledgements_struct_methods() {
    let packages = vec![PackageAcknowledgement {
        name: "TestPackage".to_string(),
        license: Some("MIT".to_string()),
        author: "TestAuthor".to_string(),
        url: "https://github.com/testauthor/testpackage".to_string(),
    }];

    let contributors = vec![Contributor {
        name: "Test Contributor".to_string(),
        email: None,
        contributions: 5,
    }];

    let acknowledgements = Acknowledgements {
        packages: packages.clone(),
        contributors: contributors.clone(),
    };

    assert_eq!(acknowledgements.packages.len(), 1);
    assert_eq!(acknowledgements.contributors.len(), 1);
    assert_eq!(acknowledgements.packages[0].name, "TestPackage");
    assert_eq!(acknowledgements.contributors[0].name, "Test Contributor");
}

#[test]
fn test_contributor_collected_name_parts() {
    let contributor = Contributor {
        name: "John Doe Smith".to_string(),
        email: None,
        contributions: 1,
    };

    let parts = contributor.collected_name_parts();
    assert_eq!(parts, vec!["John", "Doe", "Smith"]);

    let single_name_contributor = Contributor {
        name: "John".to_string(),
        email: None,
        contributions: 1,
    };

    let single_parts = single_name_contributor.collected_name_parts();
    assert_eq!(single_parts, vec!["John"]);
}

#[test]
fn test_contributor_without_email_method() {
    let contributor_with_email = Contributor {
        name: "John Doe".to_string(),
        email: Some("john@example.com".to_string()),
        contributions: 5,
    };

    let contributor_without_email = contributor_with_email.without_email();
    assert_eq!(contributor_without_email.name, "John Doe");
    assert_eq!(contributor_without_email.email, None);
    assert_eq!(contributor_without_email.contributions, 5);
}

#[test]
fn test_extract_edge_cases() {
    assert_eq!(extract_name_out_of_contributors_line(""), None);
    assert_eq!(
        extract_name_out_of_contributors_line("No angle brackets"),
        None
    );
    assert_eq!(extract_name_out_of_contributors_line("< >"), None);
    assert_eq!(
        extract_name_out_of_contributors_line("Name<email"),
        Some("Name".to_string())
    );

    assert_eq!(extract_email_out_of_contributors_line(""), None);
    assert_eq!(extract_email_out_of_contributors_line("No brackets"), None);
    assert_eq!(
        extract_email_out_of_contributors_line("< >"),
        Some(" ".to_string())
    );
    assert_eq!(extract_email_out_of_contributors_line("Name email>"), None);
    assert_eq!(extract_email_out_of_contributors_line("Name <email"), None);
}

#[test]
fn test_package_acknowledgement_methods() {
    let package = PackageAcknowledgement::new(
        &"TestPackage".to_string(),
        Some(&"MIT License".to_string()),
        &"TestAuthor".to_string(),
        &"https://github.com/testauthor/testpackage".to_string(),
    );

    assert_eq!(package.name, "TestPackage");
    assert_eq!(package.license, Some("MIT License".to_string()));
    assert_eq!(package.author, "TestAuthor");
    assert_eq!(package.url, "https://github.com/testauthor/testpackage");

    let package_no_license = PackageAcknowledgement::new(
        &"TestPackage2".to_string(),
        None,
        &"TestAuthor2".to_string(),
        &"https://github.com/testauthor2/testpackage2".to_string(),
    );

    assert_eq!(package_no_license.license, None);
}

#[test]
fn test_merge_contributors_complex_scenarios() {
    let contributors = vec![
        Contributor {
            name: "John".to_string(),
            email: Some("john@example.com".to_string()),
            contributions: 3,
        },
        Contributor {
            name: "John Doe".to_string(),
            email: Some("john@example.com".to_string()),
            contributions: 2,
        },
        Contributor {
            name: "Jane Smith".to_string(),
            email: Some("jane@example.com".to_string()),
            contributions: 1,
        },
        Contributor {
            name: "J".to_string(),
            email: Some("j@example.com".to_string()),
            contributions: 1,
        },
    ];

    let merged = merge_contributors_with_similar_names(&contributors);

    assert!(merged.len() <= contributors.len());

    let john_entry = merged.iter().find(|c| c.name.contains("John"));
    assert!(john_entry.is_some());
    if let Some(john) = john_entry {
        assert_eq!(john.name, "John Doe");
        assert_eq!(john.contributions, 5);
    }
}
