//! Candidates from the service directory: which listed files hold them, and how
//! one entry becomes a registry record.

use crate::site::{OnionSite, SiteView};
use crate::text::{ends_with, starts_with, text_eq};
use vstd::prelude::*;

verus! {

/// The lowercase form that the standard library's `str::to_lowercase` gives
/// of a text.
pub uninterp spec fn lowercased(s: Seq<char>) -> Seq<char>;

/// `str::to_lowercase` of the standard library: the result is `lowercased` of
/// the text.
pub assume_specification[ str::to_lowercase ](s: &str) -> (out: String)
    ensures
        out@ == lowercased(s@),
;

/// A hyphen for a space or an underscore, any other character as it is.
pub open spec fn hyphen_for(c: char) -> char {
    if c == ' ' || c == '_' {
        '-'
    } else {
        c
    }
}

/// `s` with a hyphen in place of every space and every underscore.
pub open spec fn hyphenated(s: Seq<char>) -> Seq<char> {
    s.map_values(|c: char| hyphen_for(c))
}

/// The registry key of the service with display name `title`.
pub open spec fn derived_key(title: Seq<char>) -> Seq<char> {
    hyphenated(lowercased(title))
}

/// Whether an address already names its scheme.
pub open spec fn has_scheme(address: Seq<char>) -> bool {
    "http://"@.is_prefix_of(address) || "https://"@.is_prefix_of(address)
}

/// The address with a scheme: plain HTTP where it names none.
pub open spec fn normalized_address(address: Seq<char>) -> Seq<char> {
    if has_scheme(address) {
        address
    } else {
        "http://"@ + address
    }
}

/// Whether an address stands for a service that has none yet: the empty text,
/// or the bare suffix `.onion`.
pub open spec fn is_placeholder(address: Seq<char>) -> bool {
    address.len() == 0 || address == ".onion"@
}

/// The status of a record that was never probed.
pub open spec fn unknown_status() -> Seq<char> {
    "unknown"@
}

/// The record of a service seen for the first time, with display name `title`
/// and the address `address` of the directory.
pub open spec fn first_seen(title: Seq<char>, address: Seq<char>) -> SiteView {
    SiteView {
        title,
        name: derived_key(title),
        onion_address: normalized_address(address),
        status: unknown_status(),
        prev_status: unknown_status(),
        last_checked: None,
    }
}

/// A key has as many characters as the lowercase form of its title, and
/// neither a space nor an underscore among them.
pub proof fn lemma_key_holds_no_separator(title: Seq<char>)
    ensures
        derived_key(title).len() == lowercased(title).len(),
        forall|i: int|
            0 <= i < derived_key(title).len() ==> derived_key(title)[i] != ' ' && derived_key(
                title,
            )[i] != '_',
{
}

/// Putting hyphens for separators a second time changes nothing.
pub proof fn lemma_hyphenated_idempotent(s: Seq<char>)
    ensures
        hyphenated(hyphenated(s)) == hyphenated(s),
{
    assert(hyphenated(hyphenated(s)) =~= hyphenated(s));
}

/// `text` with a hyphen in place of every space and every underscore.
pub fn hyphenate(text: &str) -> (out: String)
    ensures
        out@ == hyphenated(text@),
{
    let mut out = String::new();
    for c in it: text.chars()
        invariant
            it.seq() == text@,
            out@ == hyphenated(text@.take(it.index() as int)),
    {
        proof {
            let k = it.index() as int;
            assert(hyphenated(text@.take(k + 1)) =~= hyphenated(text@.take(k)).push(hyphen_for(c)));
        }
        if c == ' ' || c == '_' {
            out.push('-');
        } else {
            out.push(c);
        }
    }
    proof {
        assert(text@.take(text@.len() as int) =~= text@);
    }
    out
}

/// The registry key of the service with display name `title`: the title in
/// lowercase, with a hyphen for every space and every underscore. The key
/// depends on the title alone. Titles that differ only in case, spaces and
/// underscores have one key; nothing here tells them apart.
pub fn derive_key(title: &str) -> (key: String)
    ensures
        key@ == derived_key(title@),
{
    let lower = title.to_lowercase();
    hyphenate(lower.as_str())
}

/// The address with a scheme: plain HTTP where it names none.
pub fn normalize_address(address: &str) -> (out: String)
    ensures
        out@ == normalized_address(address@),
{
    if starts_with(address, "http://") || starts_with(address, "https://") {
        String::from_str(address)
    } else {
        String::from_str("http://").concat(address)
    }
}

/// Whether an address stands for a service that has none yet.
pub fn placeholder(address: &str) -> (yes: bool)
    ensures
        yes == is_placeholder(address@),
{
    address.is_empty() || text_eq(address, ".onion")
}

/// One entry of the directory's listing.
#[derive(Debug, PartialEq, Eq)]
pub struct GitHubFile {
    pub name: String,
    /// What the entry is: `file` for a file.
    pub file_type: String,
    /// Where the entry's content can be fetched, if anywhere.
    pub download_url: Option<String>,
}

/// What a `GitHubFile` holds, as mathematical values.
pub ghost struct FileView {
    pub name: Seq<char>,
    pub file_type: Seq<char>,
    pub download_url: Option<Seq<char>>,
}

impl View for GitHubFile {
    type V = FileView;

    open spec fn view(&self) -> FileView {
        FileView {
            name: self.name@,
            file_type: self.file_type@,
            download_url: match self.download_url {
                Some(url) => Some(url@),
                None => None,
            },
        }
    }
}

impl DeepView for GitHubFile {
    type V = FileView;

    open spec fn deep_view(&self) -> FileView {
        self@
    }
}

/// Whether an entry of the listing is a file of candidates: a file whose name
/// ends in `.json`.
pub open spec fn is_json_file(file: FileView) -> bool {
    file.file_type == "file"@ && ".json"@.is_suffix_of(file.name)
}

/// Whether an entry of the listing can be fetched for candidates: a file of
/// candidates that says where its content is.
pub open spec fn is_fetchable(file: FileView) -> bool {
    is_json_file(file) && file.download_url is Some
}

/// The entries of a listing that can be fetched for candidates, in the
/// listing's order.
pub open spec fn fetchable_of(files: Seq<FileView>) -> Seq<FileView> {
    files.filter(|file: FileView| is_fetchable(file))
}

impl GitHubFile {
    /// Whether this entry is a file of candidates.
    pub fn is_json(&self) -> (yes: bool)
        ensures
            yes == is_json_file(self@),
    {
        text_eq(self.file_type.as_str(), "file") && ends_with(self.name.as_str(), ".json")
    }
}

/// Keeps the entries of a listing that can be fetched for candidates.
pub fn fetchable_files(files: Vec<GitHubFile>) -> (kept: Vec<GitHubFile>)
    ensures
        kept.deep_view() == fetchable_of(files.deep_view()),
{
    let ghost all = files.deep_view();
    let mut kept: Vec<GitHubFile> = Vec::new();
    proof {
        assert(kept.deep_view() =~= fetchable_of(all.take(0)));
    }
    for file in it: files
        invariant
            it.seq().len() == all.len(),
            forall|i: int| 0 <= i < all.len() ==> (#[trigger] it.seq()[i])@ == all[i],
            kept.deep_view() == fetchable_of(all.take(it.index() as int)),
    {
        let ghost k = it.index() as int;
        let ghost before = kept.deep_view();
        proof {
            assert(all.take(k + 1) =~= all.take(k).push(file@));
            all.take(k).lemma_filter_push(file@, |file: FileView| is_fetchable(file));
        }
        if file.is_json() && file.download_url.is_some() {
            kept.push(file);
            proof {
                assert(kept.deep_view() =~= before.push(file@));
            }
        }
    }
    proof {
        assert(all.take(all.len() as int) =~= all);
    }
    kept
}

/// One entry of a file of candidates: a display name and, where the service
/// has one, its address.
#[derive(Debug, PartialEq, Eq)]
pub struct GitHubProject {
    pub name: String,
    pub onion: Option<String>,
}

/// What a `GitHubProject` holds, as mathematical values.
pub ghost struct ProjectView {
    pub name: Seq<char>,
    pub onion: Option<Seq<char>>,
}

impl View for GitHubProject {
    type V = ProjectView;

    open spec fn view(&self) -> ProjectView {
        ProjectView {
            name: self.name@,
            onion: match self.onion {
                Some(address) => Some(address@),
                None => None,
            },
        }
    }
}

impl DeepView for GitHubProject {
    type V = ProjectView;

    open spec fn deep_view(&self) -> ProjectView {
        self@
    }
}

/// The record that an entry of the directory gives: none where the entry has
/// no address or a placeholder for one.
pub open spec fn candidate_of(project: ProjectView) -> Option<SiteView> {
    match project.onion {
        Some(address) => if is_placeholder(address) {
            None
        } else {
            Some(first_seen(project.name, address))
        },
        None => None,
    }
}

/// The records that the entries of a file give, in the file's order.
pub open spec fn candidates_of(projects: Seq<ProjectView>) -> Seq<SiteView> {
    projects.filter_map(|project: ProjectView| candidate_of(project))
}

impl GitHubProject {
    /// The record that this entry gives, if it gives one.
    pub fn to_site(&self) -> (out: Option<OnionSite>)
        ensures
            match out {
                Some(site) => candidate_of(self@) == Some(site@),
                None => candidate_of(self@) is None,
            },
    {
        match &self.onion {
            None => None,
            Some(address) => {
                if placeholder(address.as_str()) {
                    None
                } else {
                    Some(
                        OnionSite {
                            title: self.name.clone(),
                            name: derive_key(self.name.as_str()),
                            onion_address: normalize_address(address.as_str()),
                            status: String::from_str("unknown"),
                            prev_status: String::from_str("unknown"),
                            last_checked: None,
                        },
                    )
                }
            },
        }
    }
}

/// Appends to `sites` the records that the entries of one file give.
pub fn append_sites(sites: &mut Vec<OnionSite>, projects: &Vec<GitHubProject>)
    ensures
        final(sites).deep_view() == old(sites).deep_view() + candidates_of(projects.deep_view()),
{
    let ghost before = sites.deep_view();
    let ghost all = projects.deep_view();
    proof {
        assert(sites.deep_view() =~= before + candidates_of(all.take(0)));
    }
    let mut i: usize = 0;
    while i < projects.len()
        invariant
            i <= projects.len(),
            all == projects.deep_view(),
            sites.deep_view() == before + candidates_of(all.take(i as int)),
        decreases projects.len() - i,
    {
        let ghost so_far = sites.deep_view();
        proof {
            all.lemma_filter_map_take_succ(|project: ProjectView| candidate_of(project), i as int);
            assert(all[i as int] == projects[i as int]@);
        }
        match projects[i].to_site() {
            Some(site) => {
                let ghost added = site@;
                sites.push(site);
                proof {
                    assert(sites.deep_view() =~= so_far.push(added));
                    assert(so_far.push(added) =~= before + (candidates_of(all.take(i as int))
                        + seq![added]));
                }
            },
            None => {
                proof {
                    assert(so_far =~= before + (candidates_of(all.take(i as int)) + Seq::<
                        SiteView,
                    >::empty()));
                }
            },
        }
        i += 1;
    }
    proof {
        assert(all.take(all.len() as int) =~= all);
    }
}

} // verus!
