//! Third-party packages of a build: their references, their licenses, and
//! the acknowledgement made of both.

use crate::text::{
    chars_of, contains_substring, has_substring, lemma_index_of_first_is,
    lemma_index_of_first_none, lemma_lex_asymmetric, lemma_lex_irreflexive, lex_lt, lowercase_of,
    split_chars, split_on, string_of, string_views, to_lowercase,
};
use crate::text_map::{
    is_ascending, lemma_ascending_distinct, lemma_map_of_keys, lemma_map_of_values, map_of,
    TextMap,
};
use vstd::prelude::*;

verus! {

/// A resolved dependency: the package's name and where it comes from.
#[derive(Debug, Clone)]
pub struct PackageRef {
    pub name: String,
    pub location: String,
}

/// What the report says of one package.
#[derive(Debug, Clone)]
pub struct PackageAcknowledgement {
    pub name: String,
    pub license: Option<String>,
    pub author: String,
    pub url: String,
}

/// The mathematical value of a `PackageAcknowledgement`.
pub struct PackageAcknowledgementView {
    pub name: Seq<char>,
    pub license: Option<Seq<char>>,
    pub author: Seq<char>,
    pub url: Seq<char>,
}

impl View for PackageAcknowledgement {
    type V = PackageAcknowledgementView;

    open spec fn view(&self) -> PackageAcknowledgementView {
        PackageAcknowledgementView {
            name: self.name@,
            license: match self.license {
                Some(l) => Some(l@),
                None => None,
            },
            author: self.author@,
            url: self.url@,
        }
    }
}

/// The values of the acknowledgements of `v`.
pub open spec fn package_views(v: Seq<PackageAcknowledgement>) -> Seq<PackageAcknowledgementView> {
    Seq::new(v.len(), |i: int| v[i]@)
}

impl PackageAcknowledgement {
    /// An acknowledgement with copies of the given values.
    pub fn new(name: &String, license: Option<&String>, author: &String, url: &String) -> (out:
        PackageAcknowledgement)
        ensures
            out@ == (PackageAcknowledgementView {
                name: name@,
                license: match license {
                    Some(l) => Some(l@),
                    None => None,
                },
                author: author@,
                url: url@,
            }),
    {
        let license_copy = match license {
            Some(l) => Some(l.clone()),
            None => None,
        };
        PackageAcknowledgement {
            name: name.clone(),
            license: license_copy,
            author: author.clone(),
            url: url.clone(),
        }
    }
}

/// The author of the package at `location`: the part before the last of
/// its parts between slashes; the only part where there is one; `unknown`
/// where there is none.
pub open spec fn author_of(location: Seq<char>) -> Seq<char> {
    let parts = split_on(location, '/');
    if parts.len() >= 2 {
        parts[parts.len() - 2]
    } else if parts.len() == 1 {
        parts[0]
    } else {
        "unknown"@
    }
}

/// Derives the author of a package from its location.
pub fn package_author(location: &str) -> (out: String)
    ensures
        out@ == author_of(location@),
{
    let chars = chars_of(location);
    let parts = split_chars(&chars, '/');
    let n = parts.len();
    if n >= 2 {
        string_of(&parts[n - 2])
    } else if n == 1 {
        string_of(&parts[0])
    } else {
        String::from_str("unknown")
    }
}

/// The names and locations of `dependencies`, in order.
pub open spec fn dependency_entries(dependencies: Seq<PackageRef>) -> Seq<(Seq<char>, Seq<char>)> {
    Seq::new(dependencies.len(), |i: int| (dependencies[i].name@, dependencies[i].location@))
}

/// Maps each package name of the manifest to its location. Where a name
/// occurs more than once, the last location stays.
pub fn get_packages_urls(dependencies: &Vec<PackageRef>) -> (out: TextMap)
    ensures
        out@ == map_of(dependency_entries(dependencies@)),
{
    let ghost all = dependency_entries(dependencies@);
    let mut out = TextMap::new();
    let mut i: usize = 0;
    while i < dependencies.len()
        invariant
            i <= dependencies.len(),
            all == dependency_entries(dependencies@),
            out@ == map_of(all.take(i as int)),
        decreases dependencies.len() - i,
    {
        proof {
            assert(all.take(i + 1).drop_last() =~= all.take(i as int));
        }
        out.insert(dependencies[i].name.clone(), dependencies[i].location.clone());
        i += 1;
    }
    assert(all.take(dependencies.len() as int) =~= all);
    out
}

/// What is said of the package `entry`, a name and a location, given the
/// licenses that were found.
pub open spec fn acknowledgement_of(
    entry: (Seq<char>, Seq<char>),
    licenses: Map<Seq<char>, Seq<char>>,
) -> PackageAcknowledgementView {
    PackageAcknowledgementView {
        name: entry.0,
        license: if licenses.contains_key(entry.0) {
            Some(licenses[entry.0])
        } else {
            None
        },
        author: author_of(entry.1),
        url: entry.1,
    }
}

/// Makes one acknowledgement for each package, in the order of the names.
pub fn make_packages_acknowledgements(packages_urls: &TextMap, package_licenses: &TextMap) -> (out:
    Vec<PackageAcknowledgement>)
    ensures
        out.len() == packages_urls.entries().len(),
        forall|i: int|
            0 <= i < out.len() ==> (#[trigger] out@[i])@ == acknowledgement_of(
                packages_urls.entries()[i],
                package_licenses@,
            ),
        is_ascending(packages_urls.entries()),
{
    proof {
        use_type_invariant(packages_urls);
    }
    let mut out: Vec<PackageAcknowledgement> = Vec::new();
    let n = packages_urls.len();
    let mut i: usize = 0;
    while i < n
        invariant
            i <= n,
            n == packages_urls.entries().len(),
            out.len() == i,
            forall|j: int|
                0 <= j < i ==> (#[trigger] out@[j])@ == acknowledgement_of(
                    packages_urls.entries()[j],
                    package_licenses@,
                ),
        decreases n - i,
    {
        let name = packages_urls.key_at(i);
        let url = packages_urls.value_at(i);
        let license = package_licenses.get(name);
        let author = package_author(url.as_str());
        let entry = PackageAcknowledgement::new(name, license, &author, url);
        out.push(entry);
        i += 1;
    }
    out
}

/// The names for which `s` holds an acknowledgement.
pub open spec fn acknowledged_names(s: Seq<PackageAcknowledgementView>) -> Set<Seq<char>> {
    Set::new(|name: Seq<char>| exists|i: int| 0 <= i < s.len() && (#[trigger] s[i]).name == name)
}

/// The names that the manifest lists.
pub open spec fn dependency_names(dependencies: Seq<PackageRef>) -> Set<Seq<char>> {
    Set::new(
        |name: Seq<char>|
            exists|i: int| 0 <= i < dependencies.len() && (#[trigger] dependencies[i]).name@ == name,
    )
}

/// The acknowledgements made from the name-to-location map of a manifest
/// name exactly the packages that the manifest lists: every name of the
/// output is a name of the manifest, and every name of the manifest is one
/// of the output.
pub proof fn lemma_acknowledged_names(
    dependencies: Seq<PackageRef>,
    entries: Seq<(Seq<char>, Seq<char>)>,
    licenses: Map<Seq<char>, Seq<char>>,
    packages: Seq<PackageAcknowledgementView>,
)
    requires
        map_of(entries) == map_of(dependency_entries(dependencies)),
        packages.len() == entries.len(),
        forall|i: int|
            0 <= i < packages.len() ==> (#[trigger] packages[i]) == acknowledgement_of(
                entries[i],
                licenses,
            ),
    ensures
        acknowledged_names(packages) == dependency_names(dependencies),
{
    let deps = dependency_entries(dependencies);
    lemma_map_of_keys(entries);
    lemma_map_of_keys(deps);
    let got = acknowledged_names(packages);
    let listed = dependency_names(dependencies);
    assert forall|name: Seq<char>| got.contains(name) <==> listed.contains(name) by {
        if got.contains(name) {
            assert(map_of(entries).contains_key(name));
        }
        if listed.contains(name) {
            let j = choose|j: int|
                0 <= j < dependencies.len() && (#[trigger] dependencies[j]).name@ == name;
            assert(deps[j].0 == name);
            assert(map_of(deps).contains_key(name));
            let i = choose|i: int| 0 <= i < entries.len() && (#[trigger] entries[i]).0 == name;
            assert(packages[i].name == name);
        }
    }
}

/// Makes the acknowledgements for the packages that the manifest lists,
/// with the licenses that were found for them: one for each name, in the
/// order of the names.
pub fn get_packages_acknowledgements(dependencies: &Vec<PackageRef>, licenses: &TextMap) -> (out:
    Vec<PackageAcknowledgement>)
    ensures
        acknowledged_names(package_views(out@)) == dependency_names(dependencies@),
        forall|i: int, j: int|
            0 <= i < j < out.len() ==> lex_lt(
                (#[trigger] out@[i]).name@,
                (#[trigger] out@[j]).name@,
            ),
        forall|i: int, j: int|
            0 <= i < j < out.len() ==> (#[trigger] out@[i]).name@ != (#[trigger] out@[j]).name@,
        forall|i: int|
            0 <= i < out.len() ==> (#[trigger] out@[i])@ == acknowledgement_of(
                (out@[i].name@, map_of(dependency_entries(dependencies@))[out@[i].name@]),
                licenses@,
            ),
{
    let urls = get_packages_urls(dependencies);
    let out = make_packages_acknowledgements(&urls, licenses);
    proof {
        let entries = urls.entries();
        lemma_ascending_distinct(entries);
        lemma_acknowledged_names(dependencies@, entries, licenses@, package_views(out@));
        assert forall|i: int| 0 <= i < out.len() implies (#[trigger] out@[i])@
            == acknowledgement_of(
            (out@[i].name@, map_of(dependency_entries(dependencies@))[out@[i].name@]),
            licenses@,
        ) by {
            lemma_map_of_values(entries, i);
        }
    }
    out
}

/// Whether a file of the name `name` is taken for a license: the name in
/// lowercase holds `license`.
pub open spec fn is_license_name(name: Seq<char>) -> bool {
    has_substring(lowercase_of(name), "license"@)
}

/// Decides whether a file of this name is taken for a license.
pub fn is_license_file_name(name: &str) -> (r: bool)
    ensures
        r == is_license_name(name@),
{
    let lower = to_lowercase(name);
    let lower_chars = chars_of(lower.as_str());
    let pattern = chars_of("license");
    contains_substring(&lower_chars, &pattern)
}

/// For each name of `files`, whether it is taken for a license.
pub open spec fn license_flags(files: Seq<Seq<char>>) -> Seq<bool> {
    Seq::new(files.len(), |i: int| is_license_name(files[i]))
}

/// Finds the first of `files` that is taken for a license.
pub fn find_license_file(files: &Vec<String>) -> (r: Option<usize>)
    ensures
        match r {
            Some(i) => i < files.len() && license_flags(string_views(files@)).index_of_first(true)
                == Some(i as int),
            None => license_flags(string_views(files@)).index_of_first(true) is None,
        },
{
    let ghost flags = license_flags(string_views(files@));
    let mut i: usize = 0;
    while i < files.len()
        invariant
            i <= files.len(),
            flags == license_flags(string_views(files@)),
            forall|j: int| 0 <= j < i ==> !flags[j],
        decreases files.len() - i,
    {
        if is_license_file_name(files[i].as_str()) {
            proof {
                lemma_index_of_first_is(flags, true, i as int);
            }
            return Some(i);
        }
        i += 1;
    }
    proof {
        lemma_index_of_first_none(flags, true);
    }
    None
}

/// The checked-out sources of one package: the directory's name, which is
/// the package's name, and the names of the files directly in it, in the
/// order in which the directory gave them.
#[derive(Debug, Clone)]
pub struct PackageCheckout {
    pub name: String,
    pub files: Vec<String>,
}

/// The file that holds the license of a package.
#[derive(Debug, Clone)]
pub struct LicenseSource {
    pub package: String,
    pub file_name: String,
}

/// The license files of `checkouts`: for each package with a file taken
/// for a license, the first such file; packages without one are left out.
pub open spec fn selected_licenses(checkouts: Seq<PackageCheckout>) -> Seq<(Seq<char>, Seq<char>)>
    decreases checkouts.len(),
{
    if checkouts.len() == 0 {
        Seq::empty()
    } else {
        let rest = selected_licenses(checkouts.drop_last());
        let files = string_views(checkouts.last().files@);
        match license_flags(files).index_of_first(true) {
            Some(i) => rest.push((checkouts.last().name@, files[i])),
            None => rest,
        }
    }
}

/// The packages and file names of `sources`, in order.
pub open spec fn license_sources(sources: Seq<LicenseSource>) -> Seq<(Seq<char>, Seq<char>)> {
    Seq::new(sources.len(), |i: int| (sources[i].package@, sources[i].file_name@))
}

/// Picks the license file of each checked-out package.
pub fn select_license_files(checkouts: &Vec<PackageCheckout>) -> (out: Vec<LicenseSource>)
    ensures
        license_sources(out@) == selected_licenses(checkouts@),
{
    let mut out: Vec<LicenseSource> = Vec::new();
    let mut i: usize = 0;
    while i < checkouts.len()
        invariant
            i <= checkouts.len(),
            license_sources(out@) == selected_licenses(checkouts@.take(i as int)),
        decreases checkouts.len() - i,
    {
        proof {
            assert(checkouts@.take(i + 1).drop_last() =~= checkouts@.take(i as int));
        }
        let checkout = &checkouts[i];
        match find_license_file(&checkout.files) {
            Some(k) => {
                let source = LicenseSource {
                    package: checkout.name.clone(),
                    file_name: checkout.files[k].clone(),
                };
                out.push(source);
            },
            None => {},
        }
        i += 1;
    }
    assert(checkouts@.take(checkouts.len() as int) =~= checkouts@);
    out
}

/// The license text that was read for a package.
#[derive(Debug, Clone)]
pub struct PackageLicense {
    pub package: String,
    pub text: String,
}

/// The packages and license texts of `licenses`, in order.
pub open spec fn license_entries(licenses: Seq<PackageLicense>) -> Seq<(Seq<char>, Seq<char>)> {
    Seq::new(licenses.len(), |i: int| (licenses[i].package@, licenses[i].text@))
}

/// Maps each package name to the license text that was read for it. Where
/// a name occurs more than once, the last text stays.
pub fn get_packages_licenses(licenses: &Vec<PackageLicense>) -> (out: TextMap)
    ensures
        out@ == map_of(license_entries(licenses@)),
{
    let ghost all = license_entries(licenses@);
    let mut out = TextMap::new();
    let mut i: usize = 0;
    while i < licenses.len()
        invariant
            i <= licenses.len(),
            all == license_entries(licenses@),
            out@ == map_of(all.take(i as int)),
        decreases licenses.len() - i,
    {
        proof {
            assert(all.take(i + 1).drop_last() =~= all.take(i as int));
        }
        out.insert(licenses[i].package.clone(), licenses[i].text.clone());
        i += 1;
    }
    assert(all.take(licenses.len() as int) =~= all);
    out
}

/// Two lists of acknowledgements whose names go up strictly and are the
/// same names have the same names at the same positions.
pub proof fn lemma_ascending_names_determined(
    a: Seq<PackageAcknowledgementView>,
    b: Seq<PackageAcknowledgementView>,
)
    requires
        acknowledged_names(a) == acknowledged_names(b),
        forall|i: int, j: int|
            0 <= i < j < a.len() ==> lex_lt((#[trigger] a[i]).name, (#[trigger] a[j]).name),
        forall|i: int, j: int|
            0 <= i < j < b.len() ==> lex_lt((#[trigger] b[i]).name, (#[trigger] b[j]).name),
    ensures
        a.len() == b.len(),
        forall|i: int| 0 <= i < a.len() ==> (#[trigger] a[i]).name == b[i].name,
    decreases a.len(),
{
    if a.len() == 0 {
        if b.len() > 0 {
            assert(acknowledged_names(a).contains(b[0].name));
        }
    } else {
        let la = a.last();
        assert(acknowledged_names(b).contains(la.name));
        let k = choose|k: int| 0 <= k < b.len() && (#[trigger] b[k]).name == la.name;
        // the greatest name of `b` stands at its end, so `k` is the end
        if k < b.len() - 1 {
            let lb = b[b.len() - 1];
            assert(acknowledged_names(a).contains(lb.name));
            let m = choose|m: int| 0 <= m < a.len() && (#[trigger] a[m]).name == lb.name;
            if m < a.len() - 1 {
                lemma_lex_asymmetric(la.name, lb.name);
            }
        }
        let ta = a.drop_last();
        let tb = b.drop_last();
        assert forall|name: Seq<char>| acknowledged_names(ta).contains(name)
            <==> acknowledged_names(tb).contains(name) by {
            if acknowledged_names(ta).contains(name) {
                lemma_lex_irreflexive(name);
                assert(acknowledged_names(b).contains(name));
                let j = choose|j: int| 0 <= j < b.len() && (#[trigger] b[j]).name == name;
                assert(tb[j] == b[j]);
            }
            if acknowledged_names(tb).contains(name) {
                lemma_lex_irreflexive(name);
                assert(acknowledged_names(a).contains(name));
                let i = choose|i: int| 0 <= i < a.len() && (#[trigger] a[i]).name == name;
                assert(ta[i] == a[i]);
            }
        }
        assert(acknowledged_names(ta) =~= acknowledged_names(tb));
        lemma_ascending_names_determined(ta, tb);
        assert forall|i: int| 0 <= i < a.len() implies (#[trigger] a[i]).name == b[i].name by {
            if i < ta.len() {
                assert(ta[i] == a[i] && tb[i] == b[i]);
            }
        }
    }
}

} // verus!
