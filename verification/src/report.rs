//! The acknowledgements report: the packages a project builds on and the
//! people who contributed to it.

use crate::artifacts::{join_path, joined_path};
use crate::contributors::{
    contributor_views, copy_of, get_contributors_list, is_ordered_by, reconciled, Contributor,
    ContributorView, SortKey,
};
use crate::packages::{
    acknowledged_names, acknowledgement_of, dependency_entries, dependency_names,
    get_packages_acknowledgements, get_packages_licenses, lemma_ascending_names_determined,
    license_entries, package_views,
    PackageAcknowledgement, PackageAcknowledgementView, PackageLicense, PackageRef,
};
use crate::text::{lex_lt, lines_of};
use crate::text_map::map_of;
use vstd::prelude::*;

verus! {

/// The report: one entry per package and one per contributor.
#[derive(Debug, Clone)]
pub struct Acknowledgements {
    pub packages: Vec<PackageAcknowledgement>,
    pub contributors: Vec<Contributor>,
}

/// The mathematical value of a report.
pub struct AcknowledgementsView {
    pub packages: Seq<PackageAcknowledgementView>,
    pub contributors: Seq<ContributorView>,
}

impl View for Acknowledgements {
    type V = AcknowledgementsView;

    open spec fn view(&self) -> AcknowledgementsView {
        AcknowledgementsView {
            packages: package_views(self.packages@),
            contributors: contributor_views(self.contributors@),
        }
    }
}

impl Acknowledgements {
    /// A report with copies of the given entries.
    pub fn new(packages: &Vec<PackageAcknowledgement>, contributors: &Vec<Contributor>) -> (out:
        Acknowledgements)
        ensures
            out@.packages == package_views(packages@),
            out@.contributors == contributor_views(contributors@),
    {
        let mut package_copies: Vec<PackageAcknowledgement> = Vec::new();
        let mut i: usize = 0;
        while i < packages.len()
            invariant
                i <= packages.len(),
                package_copies.len() == i,
                forall|j: int| 0 <= j < i ==> (#[trigger] package_copies@[j])@ == packages@[j]@,
            decreases packages.len() - i,
        {
            let p = &packages[i];
            let copy = PackageAcknowledgement::new(&p.name, p.license.as_ref(), &p.author, &p.url);
            package_copies.push(copy);
            i += 1;
        }
        let mut contributor_copies: Vec<Contributor> = Vec::new();
        let mut i: usize = 0;
        while i < contributors.len()
            invariant
                i <= contributors.len(),
                contributor_copies.len() == i,
                forall|j: int|
                    0 <= j < i ==> (#[trigger] contributor_copies@[j])@ == contributors@[j]@,
            decreases contributors.len() - i,
        {
            contributor_copies.push(copy_of(&contributors[i]));
            i += 1;
        }
        Acknowledgements { packages: package_copies, contributors: contributor_copies }
    }
}

/// The name of the report's file where the output names a directory.
pub open spec fn report_file_name() -> Seq<char> {
    "acknowledgements.json"@
}

/// Where the report goes: into the file `acknowledgements.json` below
/// `output` where that is an existing directory, else to `output` as it
/// is.
pub open spec fn final_output_path(output: Seq<char>, output_is_directory: bool) -> Seq<char> {
    if output_is_directory {
        join_path(output, report_file_name())
    } else {
        output
    }
}

/// Decides where the report goes, given whether `output` names an
/// existing directory.
pub fn make_final_output_path(output: &String, output_is_directory: bool) -> (out: String)
    ensures
        out@ == final_output_path(output@, output_is_directory),
{
    if output_is_directory {
        joined_path(output.as_str(), "acknowledgements.json")
    } else {
        output.clone()
    }
}

/// The message that confirms that the report was written to `path`.
pub open spec fn confirmation(path: Seq<char>) -> Seq<char> {
    "✅ Acknowledgements written to: "@ + path
}

/// Makes the message that confirms that the report was written to `path`.
pub fn confirmation_message(path: &str) -> (out: String)
    ensures
        out@ == confirmation(path@),
{
    String::from_str("✅ Acknowledgements written to: ").concat(path)
}

/// Whether `report` is the report for a project: it acknowledges the
/// packages that the manifest lists, once each and in the order of their
/// names, with the license texts that were read, and it holds the
/// contributors that the commit history gives.
pub open spec fn report_of(
    dependencies: Seq<PackageRef>,
    licenses: Seq<PackageLicense>,
    log_output: Option<Seq<char>>,
    report: AcknowledgementsView,
) -> bool {
    &&& acknowledged_names(report.packages) == dependency_names(dependencies)
    &&& forall|i: int, j: int|
        0 <= i < j < report.packages.len() ==> lex_lt(
            (#[trigger] report.packages[i]).name,
            (#[trigger] report.packages[j]).name,
        )
    &&& forall|i: int|
        0 <= i < report.packages.len() ==> (#[trigger] report.packages[i]) == acknowledgement_of(
            (report.packages[i].name, map_of(dependency_entries(dependencies))[report.packages[i].name]),
            map_of(license_entries(licenses)),
        )
    &&& report.contributors == match log_output {
        Some(text) => reconciled(lines_of(text)),
        None => Seq::empty(),
    }
}

/// What is known before the report is written: the report, the path it
/// goes to, and the message that confirms it.
#[derive(Debug, Clone)]
pub struct AcknowledgementsPlan {
    pub report: Acknowledgements,
    pub output_path: String,
    pub message: String,
}

/// Makes the acknowledgements of a project from what was read: the
/// dependencies of the manifest, the license texts, the output of the
/// version-control log if there is a history, and the output path with
/// the fact whether it names an existing directory.
pub fn acknowledgements(
    dependencies: &Vec<PackageRef>,
    licenses: &Vec<PackageLicense>,
    log_output: Option<&str>,
    output: &String,
    output_is_directory: bool,
) -> (plan: AcknowledgementsPlan)
    requires
        log_output is Some ==> log_output->0@.len() < i64::MAX,
    ensures
        report_of(
            dependencies@,
            licenses@,
            match log_output {
                Some(text) => Some(text@),
                None => None,
            },
            plan.report@,
        ),
        is_ordered_by(SortKey::LowercaseName, plan.report@.contributors),
        forall|i: int|
            0 <= i < plan.report.contributors.len() ==> (
            #[trigger] plan.report.contributors@[i]).email is None,
        plan.output_path@ == final_output_path(output@, output_is_directory),
        plan.message@ == confirmation(plan.output_path@),
{
    let license_map = get_packages_licenses(licenses);
    let packages = get_packages_acknowledgements(dependencies, &license_map);
    let contributors = get_contributors_list(log_output);
    let output_path = make_final_output_path(output, output_is_directory);
    let message = confirmation_message(output_path.as_str());
    assert(package_views(packages@).len() == packages.len());
    AcknowledgementsPlan {
        report: Acknowledgements { packages, contributors },
        output_path,
        message,
    }
}

/// Making the report twice from the same inputs gives the same
/// contributors, the same package names in the same order, and for each
/// package the same entry.
pub proof fn lemma_report_is_determined(
    dependencies: Seq<PackageRef>,
    licenses: Seq<PackageLicense>,
    log_output: Option<Seq<char>>,
    first: AcknowledgementsView,
    second: AcknowledgementsView,
)
    requires
        report_of(dependencies, licenses, log_output, first),
        report_of(dependencies, licenses, log_output, second),
    ensures
        first == second,
{
    lemma_ascending_names_determined(first.packages, second.packages);
    assert(first.packages =~= second.packages);
}

} // verus!
