//! Checks run after the server and the client have exited: which directory
//! entries count, whether the server holds what the client holds, and
//! whether two files agree byte for byte.

use vstd::prelude::*;
use vstd::string::*;
use crate::entries::{
    clone_entry, entries_view, insert_entry, is_sorted_listing, missing_entries,
    symmetric_difference, sorted_entries, Entry, EntryView,
};
use crate::order::{compare_names, Order};
use crate::platform::{separator_of, Platform};
use crate::text::{join_strings, seq_join};

verus! {

/// Names of files that the runner itself places in run directories and that
/// directory comparisons ignore.
pub open spec fn excluded_names() -> Seq<Seq<char>> {
    seq!["server.exe"@, "client.exe"@, "server.log"@, "client.log"@]
}

/// Whether a directory entry with this name is left out of comparisons.
pub fn is_excluded_file(file_name: &str) -> (r: bool)
    ensures
        r == excluded_names().contains(file_name@),
        r <==> (file_name@ == "server.exe"@ || file_name@ == "client.exe"@ || file_name@ == "server.log"@
            || file_name@ == "client.log"@),
{
    let ghost ex = excluded_names();
    let found = matches!(compare_names(file_name, "server.exe"), Order::Equal)
        || matches!(compare_names(file_name, "client.exe"), Order::Equal)
        || matches!(compare_names(file_name, "server.log"), Order::Equal)
        || matches!(compare_names(file_name, "client.log"), Order::Equal);
    proof {
        if ex.contains(file_name@) {
            let k = choose|k: int| 0 <= k < ex.len() && ex[k] == file_name@;
            assert(k == 0 || k == 1 || k == 2 || k == 3);
        }
        if found {
            if file_name@ == "server.exe"@ { assert(ex[0] == file_name@); }
            if file_name@ == "client.exe"@ { assert(ex[1] == file_name@); }
            if file_name@ == "server.log"@ { assert(ex[2] == file_name@); }
            if file_name@ == "client.log"@ { assert(ex[3] == file_name@); }
        }
    }
    proof {
        lemma_only_runner_files_excluded(file_name@);
    }
    found
}

/// Directory comparisons leave out exactly the four files the runner itself
/// places next to the synchronised data: `server.exe`, `client.exe`,
/// `server.log` and `client.log`. Every other name, whatever it is, takes
/// part in the comparisons.
pub proof fn lemma_only_runner_files_excluded(name: Seq<char>)
    ensures
        excluded_names().contains(name) <==> (name == "server.exe"@ || name == "client.exe"@ || name == "server.log"@
            || name == "client.log"@),
{
    let ex = excluded_names();
    if ex.contains(name) {
        let k = choose|k: int| 0 <= k < ex.len() && ex[k] == name;
        assert(k == 0 || k == 1 || k == 2 || k == 3);
    }
    if name == "server.exe"@ { assert(ex[0] == name); }
    if name == "client.exe"@ { assert(ex[1] == name); }
    if name == "server.log"@ { assert(ex[2] == name); }
    if name == "client.log"@ { assert(ex[3] == name); }
}

/// The entries found so far while walking a directory tree.
pub struct DirEntries {
    pub entries: Vec<Entry>,
}

impl DirEntries {
    /// Nothing found yet.
    pub fn new() -> (r: DirEntries)
        ensures
            r.entries@.len() == 0,
    {
        DirEntries { entries: Vec::new() }
    }

    /// Takes note of the entry `name` met in the directory at `relative_dir`.
    /// An excluded name is neither recorded nor entered; any other is
    /// recorded as `relative_dir` joined with `name`, and that path is
    /// returned when the entry is a directory to walk next.
    pub fn collect_dir_entry(&mut self, relative_dir: &Entry, name: String, is_dir: bool) -> (descend: Option<Entry>)
        ensures
            excluded_names().contains(name@) ==> final(self).entries@ == old(self).entries@ && descend is None,
            !excluded_names().contains(name@) ==> {
                &&& entries_view(final(self).entries@) == entries_view(old(self).entries@).push(relative_dir.deep_view().push(name@))
                &&& (descend is Some <==> is_dir)
                &&& descend matches Some(d) ==> d.deep_view() == relative_dir.deep_view().push(name@)
            },
    {
        if is_excluded_file(name.as_str()) {
            return None;
        }
        let mut path = clone_entry(relative_dir);
        let ghost before = path.deep_view();
        path.push(name);
        assert(path.deep_view() =~= before.push(path@.last()@));
        let ghost old_entries = entries_view(self.entries@);
        if is_dir {
            let again = clone_entry(&path);
            self.entries.push(path);
            assert(entries_view(self.entries@) =~= old_entries.push(again.deep_view()));
            Some(again)
        } else {
            self.entries.push(path);
            let ghost pv = self.entries@.last().deep_view();
            assert(entries_view(self.entries@) =~= old_entries.push(pv));
            None
        }
    }
}

/// How a relative path is displayed on `platform`.
pub open spec fn display_entry(e: EntryView, platform: Platform) -> Seq<char> {
    seq_join(e, separator_of(platform))
}

/// The displayed paths, separated by a comma and a space.
pub open spec fn format_paths_text(s: Seq<EntryView>, platform: Platform) -> Seq<char> {
    seq_join(s.map_values(|e: EntryView| display_entry(e, platform)), ", "@)
}

/// Displays a relative path on `platform`.
pub fn display_path(e: &Entry, platform: Platform) -> (r: String)
    ensures
        r@ == display_entry(e.deep_view(), platform),
{
    join_strings(e, platform.separator())
}

/// Lists paths for a message, separated by a comma and a space.
pub fn format_paths(paths: &Vec<Entry>, platform: Platform) -> (r: String)
    ensures
        r@ == format_paths_text(entries_view(paths@), platform),
{
    let mut shown: Vec<String> = Vec::new();
    let n = paths.len();
    let mut i: usize = 0;
    while i < n
        invariant
            n == paths.len(),
            i <= n,
            shown.len() == i,
            forall|j: int| 0 <= j < i ==> #[trigger] shown@[j]@ == display_entry(paths@[j].deep_view(), platform),
        decreases n - i,
    {
        shown.push(display_path(&paths[i], platform));
        i = i + 1;
    }
    assert(shown.deep_view() =~= entries_view(paths@).map_values(|e: EntryView| display_entry(e, platform)));
    join_strings(&shown, ", ")
}

/// What a directory comparison found wrong.
pub enum VerificationError {
    /// A path that should be a directory is not one.
    NotADirectory(String),
    /// Entries present on one side are absent from the other.
    MissingFiles(String),
    /// A file differs between the two sides.
    ContentsDiffer(String),
}

/// A directory as the comparisons see it: how it is displayed, and its
/// entries, or `None` where the path is not a directory.
pub struct DirSnapshot {
    pub display: String,
    pub listing: Option<Vec<Entry>>,
}

pub open spec fn not_a_directory_text(dir: Seq<char>) -> Seq<char> {
    dir + " is not a directory"@
}

pub open spec fn set_of(s: Seq<EntryView>) -> Set<EntryView> {
    Set::new(|e: EntryView| s.contains(e))
}

/// The message that lists `prefix` and then a sorted listing of `members`.
pub open spec fn listing_message(msg: Seq<char>, prefix: Seq<char>, members: Set<EntryView>, platform: Platform) -> bool {
    exists|s: Seq<EntryView>| is_sorted_listing(s, members) && msg == prefix + format_paths_text(s, platform)
}

fn not_a_directory(dir: &String) -> (r: VerificationError)
    ensures
        r matches VerificationError::NotADirectory(m) && m@ == not_a_directory_text(dir@),
{
    let mut m = dir.clone();
    m.append(" is not a directory");
    VerificationError::NotADirectory(m)
}

fn listing_error(prefix: &str, listed: &Vec<Entry>, platform: Platform) -> (r: String)
    ensures
        r@ == prefix@ + format_paths_text(entries_view(listed@), platform),
{
    let mut m = String::from_str(prefix);
    let shown = format_paths(listed, platform);
    m.append(shown.as_str());
    m
}

/// Checks that every entry of the client's tree also exists in the server's
/// tree; contents are not compared.
pub fn verify_server_contains_client_files(server: &DirSnapshot, client: &DirSnapshot, platform: Platform) -> (r: Result<(), VerificationError>)
    ensures
        server.listing is None ==> (r matches Err(VerificationError::NotADirectory(m)) && m@ == not_a_directory_text(server.display@)),
        server.listing is Some && client.listing is None ==> (r matches Err(VerificationError::NotADirectory(m)) && m@ == not_a_directory_text(client.display@)),
        server.listing matches Some(s) ==> client.listing matches Some(c) ==> {
            let sv = entries_view(s@);
            let cv = entries_view(c@);
            let missing = set_of(cv).difference(set_of(sv));
            &&& (r is Ok <==> forall|e: EntryView| cv.contains(e) ==> sv.contains(e))
            &&& r is Err ==> (r matches Err(VerificationError::MissingFiles(m))
                && listing_message(m@, "Server is missing client files: "@, missing, platform))
        },
{
    let server_files = match &server.listing {
        Some(s) => s,
        None => return Err(not_a_directory(&server.display)),
    };
    let client_files = match &client.listing {
        Some(c) => c,
        None => return Err(not_a_directory(&client.display)),
    };
    let ghost sv = entries_view(server_files@);
    let ghost cv = entries_view(client_files@);
    let missing = missing_entries(server_files, client_files);
    let ghost mv = entries_view(missing@);
    let ghost missing_set = set_of(cv).difference(set_of(sv));
    assert(is_sorted_listing(mv, missing_set));
    if missing.len() == 0 {
        assert forall|e: EntryView| cv.contains(e) implies sv.contains(e) by {
            if !sv.contains(e) {
                assert(mv.contains(e));
            }
        }
        return Ok(());
    }
    assert(mv.contains(mv[0]));
    let m = listing_error("Server is missing client files: ", &missing, platform);
    Err(VerificationError::MissingFiles(m))
}

/// Checks that the two trees hold the same entries: none may be present on
/// one side only.
pub fn verify_files(server: &DirSnapshot, client: &DirSnapshot, platform: Platform) -> (r: Result<(), VerificationError>)
    ensures
        (server.listing is None || client.listing is None) ==> (r matches Err(VerificationError::NotADirectory(m))
            && m@ == server.display@ + " or "@ + client.display@ + " is not a directory"@),
        server.listing matches Some(s) ==> client.listing matches Some(c) ==> {
            let sv = entries_view(s@);
            let cv = entries_view(c@);
            let differing = set_of(sv).difference(set_of(cv)).union(set_of(cv).difference(set_of(sv)));
            &&& (r is Ok <==> forall|e: EntryView| cv.contains(e) <==> sv.contains(e))
            &&& r is Err ==> (r matches Err(VerificationError::MissingFiles(m))
                && listing_message(m@, "Missing files: "@, differing, platform))
        },
{
    if server.listing.is_none() || client.listing.is_none() {
        let mut m = server.display.clone();
        m.append(" or ");
        m.append(client.display.as_str());
        m.append(" is not a directory");
        return Err(VerificationError::NotADirectory(m));
    }
    let server_files = server.listing.as_ref().unwrap();
    let client_files = client.listing.as_ref().unwrap();
    let ghost sv = entries_view(server_files@);
    let ghost cv = entries_view(client_files@);
    let differing_entries = symmetric_difference(server_files, client_files);
    let ghost dv = entries_view(differing_entries@);
    let ghost differing = set_of(sv).difference(set_of(cv)).union(set_of(cv).difference(set_of(sv)));
    assert(is_sorted_listing(dv, differing));
    if differing_entries.len() == 0 {
        assert forall|e: EntryView| cv.contains(e) <==> sv.contains(e) by {
            if cv.contains(e) != sv.contains(e) {
                assert(dv.contains(e));
            }
        }
        return Ok(());
    }
    assert(dv.contains(dv[0]));
    let m = listing_error("Missing files: ", &differing_entries, platform);
    Err(VerificationError::MissingFiles(m))
}

/// The same-entries check passes exactly when the containment check passes
/// both ways: the server holds every client entry and the client every
/// server entry.
pub proof fn lemma_same_entries_is_mutual_containment(sv: Seq<EntryView>, cv: Seq<EntryView>)
    ensures
        (forall|e: EntryView| cv.contains(e) <==> sv.contains(e)) <==> ((forall|e: EntryView| cv.contains(e) ==> sv.contains(e))
            && (forall|e: EntryView| sv.contains(e) ==> cv.contains(e))),
{
}

/// Whether two byte strings are equal.
pub fn same_bytes(a: &[u8], b: &[u8]) -> (r: bool)
    ensures
        r == (a@ == b@),
{
    if a.len() != b.len() {
        return false;
    }
    let n = a.len();
    let mut i: usize = 0;
    while i < n
        invariant
            n == a@.len(),
            n == b@.len(),
            i <= n,
            forall|j: int| 0 <= j < i ==> a@[j] == b@[j],
        decreases n - i,
    {
        if a[i] != b[i] {
            return false;
        }
        i = i + 1;
    }
    assert(a@ =~= b@);
    true
}

/// Checks that a file has the same contents on the server as on the client.
pub fn verify_file(relative: &Entry, server_file: &[u8], client_file: &[u8], platform: Platform) -> (r: Result<(), VerificationError>)
    ensures
        r is Ok <==> server_file@ == client_file@,
        r is Err ==> (r matches Err(VerificationError::ContentsDiffer(m))
            && m@ == "File contents differ: "@ + display_entry(relative.deep_view(), platform)),
{
    if same_bytes(server_file, client_file) {
        Ok(())
    } else {
        let mut m = String::from_str("File contents differ: ");
        let shown = display_path(relative, platform);
        m.append(shown.as_str());
        Err(VerificationError::ContentsDiffer(m))
    }
}

} // verus!
