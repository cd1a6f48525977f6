//! Uploaded files: their names, their places and who may read them.
use crate::access::{
    challenges_shown, require_challenge_visibility, require_ctf_time, time_gate,
};
use crate::auth::{admin_visitor, is_admin_visitor, CurrentUser};
use crate::crypto::{hex_encode, hex_text, sha1, sha1_digest};
use crate::error::{
    bad, forbidden, not_found, shown, shown_text, str_of, text_of, ApiError, Failure,
};
use crate::numbers::{bounded_value, parse_i32};
use crate::text::{
    byte_len, byte_length, chars_of, concat, contains_control, has_control, same, split, split_on,
    trim, trimmed, views,
};
use vstd::prelude::*;

verus! {

pub const MAX_FILE_BYTES: u64 = 536_870_912;

// ---------------------------------------------------------------------------
// Names and places
// ---------------------------------------------------------------------------

/// The last part of a path that is neither empty nor a single dot, among the first `n`.
pub open spec fn last_part(parts: Seq<Seq<char>>, n: int) -> Option<Seq<char>>
    decreases n,
{
    if n <= 0 {
        None
    } else if parts[n - 1].len() == 0 || parts[n - 1] == "."@ {
        last_part(parts, n - 1)
    } else {
        Some(parts[n - 1])
    }
}

/// The name of the file that a path leads to; a path that ends in two dots leads to none.
pub open spec fn file_name(path: Seq<char>) -> Option<Seq<char>> {
    let parts = split(path, '/');
    match last_part(parts, parts.len() as int) {
        Some(part) if part != ".."@ => Some(part),
        _ => None,
    }
}

fn name_of_path(path: &str) -> (result: Option<String>)
    ensures
        text_of(result) == file_name(path@),
{
    let parts = split_on(path, '/');
    let ghost all = split(path@, '/');
    let mut i: usize = parts.len();
    assert(views(parts@).len() == parts@.len());
    while i > 0
        invariant
            i <= parts.len(),
            all == split(path@, '/'),
            views(parts@) == all,
            views(parts@).len() == parts@.len(),
            last_part(all, all.len() as int) == last_part(all, i as int),
        decreases i,
    {
        assert(all[i - 1] == views(parts@)[i - 1]);
        let part = &parts[i - 1];
        if !part.as_str().is_empty() && !same(part.as_str(), ".") {
            if same(part.as_str(), "..") {
                return None;
            }
            return Some(part.clone());
        }
        i -= 1;
    }
    None
}

/// The text with an underscore for each character that is one of three.
pub open spec fn underscored(s: Seq<char>, a: char, b: char, c: char) -> Seq<char> {
    s.map_values(
        |x: char|
            if x == a || x == b || x == c {
                '_'
            } else {
                x
            },
    )
}

fn underscore(s: &str, a: char, b: char, c: char) -> (result: String)
    ensures
        result@ == underscored(s@, a, b, c),
{
    let chars = chars_of(s);
    let mut result = String::new();
    let mut i: usize = 0;
    while i < chars.len()
        invariant
            i <= chars.len(),
            chars@ == s@,
            result@ == underscored(s@.take(i as int), a, b, c),
        decreases chars.len() - i,
    {
        let x = chars[i];
        let shown_char = if x == a || x == b || x == c {
            '_'
        } else {
            x
        };
        result.push(shown_char);
        i += 1;
        assert(underscored(s@.take(i as int), a, b, c) =~= underscored(
            s@.take(i - 1),
            a,
            b,
            c,
        ).push(shown_char));
    }
    assert(s@.take(s@.len() as int) =~= s@);
    result
}

/// The name under which an upload is kept.
pub open spec fn upload_name(value: Seq<char>) -> Result<Seq<char>, Failure> {
    let name = trimmed(
        match file_name(value) {
            Some(name) => name,
            None => "upload.bin"@,
        },
    );
    if name.len() == 0 || byte_length(name) > 255 || has_control(name) {
        Err(bad("Filename is invalid"@))
    } else {
        Ok(underscored(name, '/', '\\', '\\'))
    }
}

pub fn safe_filename(value: &str) -> (result: Result<String, ApiError>)
    ensures
        shown_text(result) == upload_name(value@),
{
    let found = match name_of_path(value) {
        Some(name) => name,
        None => "upload.bin".to_owned(),
    };
    let name = trim(found.as_str());
    if name.as_str().is_empty() || byte_len(name.as_str()) > 255 || contains_control(
        name.as_str(),
    ) {
        return Err(ApiError::bad_request("Filename is invalid"));
    }
    Ok(underscore(name.as_str(), '/', '\\', '\\'))
}

/// The text without the slashes at its start.
pub open spec fn unrooted(s: Seq<char>) -> Seq<char>
    decreases s.len(),
{
    if s.len() > 0 && s[0] == '/' {
        unrooted(s.drop_first())
    } else {
        s
    }
}

pub fn drop_root(s: &str) -> (result: String)
    ensures
        result@ == unrooted(s@),
{
    let chars = chars_of(s);
    let mut i: usize = 0;
    assert(s@.skip(0) =~= s@);
    while i < chars.len() && chars[i] == '/'
        invariant
            i <= chars.len(),
            chars@ == s@,
            unrooted(s@) == unrooted(s@.skip(i as int)),
        decreases chars.len() - i,
    {
        assert(s@.skip(i as int).drop_first() =~= s@.skip(i + 1));
        i += 1;
    }
    assert(s@.subrange(i as int, s@.len() as int) =~= s@.skip(i as int));
    crate::text::slice_to_string(&chars, i, chars.len())
}

/// A place below the upload folder: it does not start at a dot, nowhere goes up, and has no control
/// character in it.
pub open spec fn is_place(path: Seq<char>) -> bool {
    let parts = split(path, '/');
    &&& path.len() > 0
    &&& !has_control(path)
    &&& parts[0] != "."@
    &&& forall|i: int| 0 <= i < parts.len() ==> #[trigger] parts[i] != ".."@
}

fn place_ok(path: &str) -> (result: bool)
    ensures
        result == is_place(path@),
{
    if path.is_empty() || contains_control(path) {
        return false;
    }
    let parts = split_on(path, '/');
    let ghost all = split(path@, '/');
    assert(views(parts@).len() == parts@.len());
    assert(all.len() > 0);
    assert(all[0] == views(parts@)[0]);
    if same(parts[0].as_str(), ".") {
        return false;
    }
    let mut i: usize = 0;
    while i < parts.len()
        invariant
            i <= parts.len(),
            all == split(path@, '/'),
            views(parts@) == all,
            views(parts@).len() == parts@.len(),
            forall|j: int| 0 <= j < i ==> #[trigger] all[j] != ".."@,
        decreases parts.len() - i,
    {
        assert(all[i as int] == views(parts@)[i as int]);
        if same(parts[i].as_str(), "..") {
            return false;
        }
        i += 1;
    }
    true
}

pub open spec fn location_of(value: Seq<char>) -> Result<Seq<char>, Failure> {
    if is_place(unrooted(value)) {
        Ok(unrooted(value))
    } else {
        Err(bad("File location is invalid"@))
    }
}

pub fn safe_location(value: &str) -> (result: Result<String, ApiError>)
    ensures
        shown_text(result) == location_of(value@),
{
    let path = drop_root(value);
    if place_ok(path.as_str()) {
        Ok(path)
    } else {
        Err(ApiError::bad_request("File location is invalid"))
    }
}

/// A path below a folder.
pub open spec fn joined_path(root: Seq<char>, location: Seq<char>) -> Seq<char> {
    if root.len() == 0 || root.last() == '/' {
        root + location
    } else {
        root + "/"@ + location
    }
}

pub open spec fn storage_path(root: Seq<char>, location: Seq<char>) -> Result<Seq<char>, Failure> {
    match location_of(location) {
        Ok(place) => Ok(joined_path(root, place)),
        Err(failure) => Err(failure),
    }
}

/// The path of a stored file below the upload folder.
pub fn checked_storage_path(root: &str, location: &str) -> (result: Result<String, ApiError>)
    ensures
        shown_text(result) == storage_path(root@, location@),
{
    match safe_location(location) {
        Ok(place) => {
            let chars = chars_of(root);
            if chars.len() == 0 || chars[chars.len() - 1] == '/' {
                Ok(concat(root, place.as_str()))
            } else {
                let folder = concat(root, "/");
                Ok(concat(folder.as_str(), place.as_str()))
            }
        },
        Err(error) => Err(error),
    }
}

/// The name that a download is offered under.
pub fn download_name(location: &str) -> (result: String)
    ensures
        result@ == underscored(
            match file_name(location@) {
                Some(name) => name,
                None => "download.bin"@,
            },
            '"',
            '\r',
            '\n',
        ),
{
    let name = match name_of_path(location) {
        Some(name) => name,
        None => "download.bin".to_owned(),
    };
    underscore(name.as_str(), '"', '\r', '\n')
}

pub open spec fn target_id(value: Seq<char>) -> Result<Option<i32>, Failure> {
    let text = trimmed(value);
    if text.len() == 0 {
        Ok(None)
    } else {
        match bounded_value(text, i32::MIN as int, i32::MAX as int) {
            Some(id) if id > 0 => Ok(Some(id as i32)),
            _ => Err(bad("File target ID is invalid"@)),
        }
    }
}

/// The number of what a file belongs to; a blank field names nothing.
pub fn parse_optional_id(value: &str) -> (result: Result<Option<i32>, ApiError>)
    ensures
        shown(result) == target_id(value@),
{
    let text = trim(value);
    if text.as_str().is_empty() {
        return Ok(None);
    }
    match parse_i32(text.as_str()) {
        Some(id) => if id > 0 {
            Ok(Some(id))
        } else {
            Err(ApiError::bad_request("File target ID is invalid"))
        },
        None => Err(ApiError::bad_request("File target ID is invalid")),
    }
}

/// The query for stored files.
pub fn file_select(suffix: &str) -> (result: String)
    ensures
        result@
            == "SELECT id,type AS file_type,location,sha1sum,challenge_id,page_id,solution_id FROM ctfzone.files "@
            + suffix@,
{
    concat(
        "SELECT id,type AS file_type,location,sha1sum,challenge_id,page_id,solution_id FROM ctfzone.files ",
        suffix,
    )
}

// ---------------------------------------------------------------------------
// Uploading
// ---------------------------------------------------------------------------

/// What has been read of an upload.
pub struct Upload {
    pub challenge_id: Option<i32>,
    pub page_id: Option<i32>,
    pub solution_id: Option<i32>,
    pub location: Option<String>,
    pub files: usize,
}

/// An upload by value: its targets, its explicit location and the number of its files.
pub type UploadView = (Option<i32>, Option<i32>, Option<i32>, Option<Seq<char>>, usize);

impl View for Upload {
    type V = UploadView;

    open spec fn view(&self) -> UploadView {
        (self.challenge_id, self.page_id, self.solution_id, text_of(self.location), self.files)
    }
}

/// The size of a file after one more chunk of it.
pub fn upload_chunk(size: u64, chunk: u64) -> (result: Result<u64, ApiError>)
    ensures
        shown(result) == (if size + chunk > MAX_FILE_BYTES {
            Err(bad("Uploaded files must be 512 MB or smaller"@))
        } else {
            Ok::<u64, Failure>((size + chunk) as u64)
        }),
{
    let grown: u64 = size.saturating_add(chunk);
    if grown > MAX_FILE_BYTES {
        Err(ApiError::bad_request("Uploaded files must be 512 MB or smaller"))
    } else {
        Ok(grown)
    }
}

/// An upload after one more field of the form.
pub open spec fn with_field(upload: UploadView, name: Seq<char>, value: Seq<char>) -> Result<
    UploadView,
    Failure,
> {
    if name == "challenge"@ || name == "challenge_id"@ {
        match target_id(value) {
            Ok(id) => Ok((id, upload.1, upload.2, upload.3, upload.4)),
            Err(failure) => Err(failure),
        }
    } else if name == "page"@ || name == "page_id"@ {
        match target_id(value) {
            Ok(id) => Ok((upload.0, id, upload.2, upload.3, upload.4)),
            Err(failure) => Err(failure),
        }
    } else if name == "solution"@ || name == "solution_id"@ {
        match target_id(value) {
            Ok(id) => Ok((upload.0, upload.1, id, upload.3, upload.4)),
            Err(failure) => Err(failure),
        }
    } else if name == "location"@ && trimmed(value).len() > 0 {
        match location_of(trimmed(value)) {
            Ok(place) => Ok((upload.0, upload.1, upload.2, Some(place), upload.4)),
            Err(failure) => Err(failure),
        }
    } else {
        Ok(upload)
    }
}

pub open spec fn shown_upload(result: Result<Upload, ApiError>) -> Result<UploadView, Failure> {
    match result {
        Ok(upload) => Ok(upload@),
        Err(error) => Err(error@),
    }
}

pub fn upload_field(upload: Upload, name: &str, value: &str) -> (result: Result<Upload, ApiError>)
    ensures
        shown_upload(result) == with_field(upload@, name@, value@),
{
    if same(name, "challenge") || same(name, "challenge_id") {
        match parse_optional_id(value) {
            Ok(challenge_id) => Ok(Upload { challenge_id, ..upload }),
            Err(error) => Err(error),
        }
    } else if same(name, "page") || same(name, "page_id") {
        match parse_optional_id(value) {
            Ok(page_id) => Ok(Upload { page_id, ..upload }),
            Err(error) => Err(error),
        }
    } else if same(name, "solution") || same(name, "solution_id") {
        match parse_optional_id(value) {
            Ok(solution_id) => Ok(Upload { solution_id, ..upload }),
            Err(error) => Err(error),
        }
    } else if same(name, "location") {
        let text = trim(value);
        if text.as_str().is_empty() {
            return Ok(upload);
        }
        match safe_location(text.as_str()) {
            Ok(place) => Ok(Upload { location: Some(place), ..upload }),
            Err(error) => Err(error),
        }
    } else {
        Ok(upload)
    }
}

/// What uploaded files belong to.
#[derive(Clone, Copy, Debug, PartialEq, Eq, Structural)]
pub enum UploadTarget {
    Challenge(i32),
    Page(i32),
    Solution(i32),
}

pub open spec fn upload_target(upload: UploadView) -> Result<UploadTarget, Failure> {
    if upload.4 == 0 {
        Err(bad("At least one file is required"@))
    } else if upload.4 > 1 && upload.3 is Some {
        Err(bad("Location cannot be specified for multiple files"@))
    } else {
        match (upload.0, upload.1, upload.2) {
            (Some(id), None, None) => Ok(UploadTarget::Challenge(id)),
            (None, Some(id), None) => Ok(UploadTarget::Page(id)),
            (None, None, Some(id)) => Ok(UploadTarget::Solution(id)),
            _ => Err(bad("Exactly one challenge, page, or solution target is required"@)),
        }
    }
}

/// What the files of a complete upload belong to: exactly one thing.
pub fn upload(form: &Upload) -> (result: Result<UploadTarget, ApiError>)
    ensures
        shown(result) == upload_target(form@),
{
    if form.files == 0 {
        return Err(ApiError::bad_request("At least one file is required"));
    }
    if form.files > 1 && form.location.is_some() {
        return Err(ApiError::bad_request("Location cannot be specified for multiple files"));
    }
    match (form.challenge_id, form.page_id, form.solution_id) {
        (Some(id), None, None) => Ok(UploadTarget::Challenge(id)),
        (None, Some(id), None) => Ok(UploadTarget::Page(id)),
        (None, None, Some(id)) => Ok(UploadTarget::Solution(id)),
        _ => Err(
            ApiError::bad_request("Exactly one challenge, page, or solution target is required"),
        ),
    }
}

pub open spec fn target_word(target: UploadTarget) -> Seq<char> {
    match target {
        UploadTarget::Challenge(_) => "challenge"@,
        UploadTarget::Page(_) => "page"@,
        UploadTarget::Solution(_) => "solution"@,
    }
}

/// The type under which a file is stored.
pub fn file_type(target: UploadTarget) -> (result: &'static str)
    ensures
        result@ == target_word(target),
{
    match target {
        UploadTarget::Challenge(_) => "challenge",
        UploadTarget::Page(_) => "page",
        UploadTarget::Solution(_) => "solution",
    }
}

/// Where an uploaded file goes: to the place that was asked for, or into a folder of its own.
pub fn upload_location(upload: &Upload, folder: &str, filename: &str) -> (result: String)
    ensures
        result@ == (match text_of(upload.location) {
            Some(place) => place,
            None => folder@ + "/"@ + filename@,
        }),
{
    match &upload.location {
        Some(place) => place.clone(),
        None => {
            let start = concat(folder, "/");
            concat(start.as_str(), filename)
        },
    }
}

/// The checksum under which a file is stored: the SHA-1 digest of its content.
pub fn file_checksum(content: &[u8]) -> (result: String)
    ensures
        result@ == hex_text(sha1_digest(content@)),
{
    let digest = sha1(content);
    hex_encode(digest.as_slice())
}

/// A file as it is stored.
pub struct FileRecord {
    pub file_type: &'static str,
    pub location: String,
    pub sha1sum: String,
    pub challenge_id: Option<i32>,
    pub page_id: Option<i32>,
    pub solution_id: Option<i32>,
}

/// The record of an uploaded file: of the target's type, at its place, with the checksum of its
/// content, and owned by the target alone.
pub fn file_record(
    form: &Upload,
    target: UploadTarget,
    folder: &str,
    filename: &str,
    content: &[u8],
) -> (result: FileRecord)
    ensures
        result.file_type@ == target_word(target),
        result.location@ == (match text_of(form.location) {
            Some(place) => place,
            None => folder@ + "/"@ + filename@,
        }),
        result.sha1sum@ == hex_text(sha1_digest(content@)),
        (result.challenge_id, result.page_id, result.solution_id) == (match target {
            UploadTarget::Challenge(id) => (Some(id), None::<i32>, None::<i32>),
            UploadTarget::Page(id) => (None, Some(id), None),
            UploadTarget::Solution(id) => (None, None, Some(id)),
        }),
{
    let (challenge_id, page_id, solution_id) = match target {
        UploadTarget::Challenge(id) => (Some(id), None, None),
        UploadTarget::Page(id) => (None, Some(id), None),
        UploadTarget::Solution(id) => (None, None, Some(id)),
    };
    FileRecord {
        file_type: file_type(target),
        location: upload_location(form, folder, filename),
        sha1sum: file_checksum(content),
        challenge_id,
        page_id,
        solution_id,
    }
}

// ---------------------------------------------------------------------------
// Reading
// ---------------------------------------------------------------------------

/// What a file belongs to.
#[derive(Clone, Copy, Debug)]
pub struct FileOwner {
    pub challenge_id: Option<i32>,
    pub page_id: Option<i32>,
    pub solution_id: Option<i32>,
}

/// What is known of the thing that a file belongs to. It is `None` where there is no such thing.
pub struct DownloadFacts {
    pub challenge_state: Option<String>,
    pub challenge_visibility: Option<String>,
    pub now: i64,
    pub start: Option<String>,
    pub end: Option<String>,
    pub view_after_ctf: Option<String>,
    /// Whether the page is a draft, hidden, or for visitors who are signed in.
    pub page: Option<(bool, bool, bool)>,
    pub solution_state: Option<String>,
    /// Whether the visitor's account has solved the challenge of the solution.
    pub solved: bool,
}

/// Whether the file of a challenge may be read.
pub open spec fn challenge_file(user: Option<&CurrentUser>, facts: DownloadFacts) -> Result<
    (),
    Failure,
> {
    if text_of(facts.challenge_state) != Some("visible"@) {
        Err(not_found("File not found"@))
    } else if !challenges_shown(user, text_of(facts.challenge_visibility)) {
        Err(forbidden("Challenges are not available"@))
    } else if is_admin_visitor(user) {
        Ok(())
    } else {
        time_gate(
            facts.now,
            text_of(facts.start),
            text_of(facts.end),
            text_of(facts.view_after_ctf),
        )
    }
}

pub open spec fn download_access(
    user: Option<&CurrentUser>,
    owner: FileOwner,
    facts: DownloadFacts,
) -> Result<(), Failure> {
    if is_admin_visitor(user) {
        Ok(())
    } else if owner.challenge_id is Some {
        challenge_file(user, facts)
    } else if owner.page_id is Some {
        match facts.page {
            Some((draft, hidden, auth_required)) if !draft && !hidden && !(auth_required
                && user is None) => Ok(()),
            _ => Err(not_found("File not found"@)),
        }
    } else if owner.solution_id is Some && facts.solution_state is Some {
        let state = facts.solution_state->Some_0@;
        if user is None {
            Err(forbidden("Authentication required"@))
        } else if state == "visible"@ || (state == "solved"@ && facts.solved) {
            Ok(())
        } else {
            Err(not_found("File not found"@))
        }
    } else {
        Err(not_found("File not found"@))
    }
}

fn opt_str(value: &Option<String>) -> (result: Option<&str>)
    ensures
        str_of(result) == text_of(*value),
{
    match value {
        Some(text) => Some(text.as_str()),
        None => None,
    }
}

/// Whether a visitor may read a file: as far as the visitor may see what the file belongs to.
pub fn authorize_download(user: Option<&CurrentUser>, owner: FileOwner, facts: &DownloadFacts) -> (
result: Result<(), ApiError>)
    ensures
        shown(result) == download_access(user, owner, *facts),
{
    if admin_visitor(user) {
        return Ok(());
    }
    if owner.challenge_id.is_some() {
        let visible = match &facts.challenge_state {
            Some(state) => same(state.as_str(), "visible"),
            None => false,
        };
        if !visible {
            return Err(ApiError::not_found("File not found"));
        }
        if let Err(error) = require_challenge_visibility(
            user,
            opt_str(&facts.challenge_visibility),
        ) {
            return Err(error);
        }
        return require_ctf_time(
            user,
            facts.now,
            opt_str(&facts.start),
            opt_str(&facts.end),
            opt_str(&facts.view_after_ctf),
        );
    }
    if owner.page_id.is_some() {
        return match facts.page {
            Some((draft, hidden, auth_required)) => if draft || hidden || (auth_required
                && user.is_none()) {
                Err(ApiError::not_found("File not found"))
            } else {
                Ok(())
            },
            None => Err(ApiError::not_found("File not found")),
        };
    }
    if owner.solution_id.is_some() {
        if let Some(state) = &facts.solution_state {
            if user.is_none() {
                return Err(ApiError::forbidden("Authentication required"));
            }
            if same(state.as_str(), "visible") || (same(state.as_str(), "solved")
                && facts.solved) {
                return Ok(());
            }
        }
    }
    Err(ApiError::not_found("File not found"))
}

// ---------------------------------------------------------------------------
// Laws
// ---------------------------------------------------------------------------

/// A path of a stored file lies below the upload folder: it starts with the folder, and no part of
/// what follows goes up.
pub proof fn law_paths_stay_in_the_folder(root: Seq<char>, location: Seq<char>)
    requires
        storage_path(root, location) is Ok,
    ensures
        root.is_prefix_of(storage_path(root, location)->Ok_0),
        ({
            let place = unrooted(location);
            &&& storage_path(root, location)->Ok_0.skip(
                storage_path(root, location)->Ok_0.len() - place.len(),
            ) == place
            &&& forall|i: int|
                0 <= i < split(place, '/').len() ==> #[trigger] split(place, '/')[i] != ".."@
        }),
{
    let path = storage_path(root, location)->Ok_0;
    let place = unrooted(location);
    reveal_strlit("/");
    assert(path.subrange(0, root.len() as int) =~= root);
    assert(path.skip(path.len() - place.len()) =~= place);
}

/// A visitor who is not signed in reads no file of a solution, and nobody but an administrator
/// reads a file of a challenge that is not visible.
pub proof fn law_files_follow_their_owners(
    user: Option<&CurrentUser>,
    owner: FileOwner,
    facts: DownloadFacts,
)
    requires
        download_access(user, owner, facts) is Ok,
        !is_admin_visitor(user),
    ensures
        owner.challenge_id is Some ==> text_of(facts.challenge_state) == Some("visible"@),
        owner.challenge_id is None && owner.page_id is None ==> user is Some,
{
}

/// A file of a visible challenge is read by whoever is shown the challenges while they can be viewed,
/// one of a page by whoever may read the page, one of a solution by players who may open it, and any
/// file by administrators.
pub proof fn law_files_are_read(user: Option<&CurrentUser>, owner: FileOwner, facts: DownloadFacts)
    ensures
        ({
            let result = download_access(user, owner, facts);
            let admin = user is Some && user->Some_0.admin();
            let challenge = owner.challenge_id is Some;
            let page = !challenge && owner.page_id is Some;
            let solution = !challenge && !page && owner.solution_id is Some;
            let state = facts.solution_state->Some_0@;
            &&& admin ==> result is Ok
            &&& !admin && challenge ==> (result is Ok <==> text_of(facts.challenge_state) == Some(
                "visible"@,
            ) && challenges_shown(user, text_of(facts.challenge_visibility)) && time_gate(
                facts.now,
                text_of(facts.start),
                text_of(facts.end),
                text_of(facts.view_after_ctf),
            ) is Ok)
            &&& !admin && page ==> (result is Ok <==> facts.page is Some && !facts.page->Some_0.0
                && !facts.page->Some_0.1 && (facts.page->Some_0.2 ==> user is Some))
            &&& !admin && solution ==> (result is Ok <==> facts.solution_state is Some && user
                is Some && (state == "visible"@ || (state == "solved"@ && facts.solved)))
            &&& !admin && !challenge && !page && !solution ==> result is Err
            &&& !admin && challenge && text_of(facts.challenge_state) != Some("visible"@)
                ==> result == Err::<(), Failure>(not_found("File not found"@))
        }),
{
}

/// Files belong to exactly one thing: a challenge, a page or a solution; a place may be named for one
/// file only.
pub proof fn law_uploads_have_one_target(upload: UploadView)
    ensures
        ({
            let result = upload_target(upload);
            let single = (upload.0 is Some && upload.1 is None && upload.2 is None) || (upload.0
                is None && upload.1 is Some && upload.2 is None) || (upload.0 is None && upload.1
                is None && upload.2 is Some);
            &&& result is Ok <==> upload.4 > 0 && (upload.4 == 1 || upload.3 is None) && single
            &&& result is Ok && upload.0 is Some ==> result->Ok_0 == UploadTarget::Challenge(
                upload.0->Some_0,
            )
            &&& result is Ok && upload.1 is Some ==> result->Ok_0 == UploadTarget::Page(
                upload.1->Some_0,
            )
            &&& result is Ok && upload.2 is Some ==> result->Ok_0 == UploadTarget::Solution(
                upload.2->Some_0,
            )
            &&& upload.4 == 0 ==> result == Err::<UploadTarget, Failure>(
                bad("At least one file is required"@),
            )
            &&& upload.4 > 1 && upload.3 is Some ==> result == Err::<UploadTarget, Failure>(
                bad("Location cannot be specified for multiple files"@),
            )
        }),
{
}

/// A field of the form sets what it names and nothing else: a target by its number, a place by its
/// path; other fields set nothing.
pub proof fn law_upload_fields_set_what_they_name(
    upload: UploadView,
    name: Seq<char>,
    value: Seq<char>,
)
    ensures
        ({
            let result = with_field(upload, name, value);
            let challenge = name == "challenge"@ || name == "challenge_id"@;
            let page = name == "page"@ || name == "page_id"@;
            let solution = name == "solution"@ || name == "solution_id"@;
            let place = name == "location"@ && trimmed(value).len() > 0;
            &&& challenge || page || solution ==> (result is Ok <==> target_id(value) is Ok)
            &&& challenge && result is Ok ==> result->Ok_0.0 == target_id(value)->Ok_0
            &&& page && result is Ok ==> result->Ok_0.1 == target_id(value)->Ok_0
            &&& solution && result is Ok ==> result->Ok_0.2 == target_id(value)->Ok_0
            &&& place ==> (result is Ok <==> location_of(trimmed(value)) is Ok)
            &&& place && result is Ok ==> result->Ok_0.3 == Some(location_of(trimmed(value))->Ok_0)
            &&& result is Ok && !challenge ==> result->Ok_0.0 == upload.0
            &&& result is Ok && !page ==> result->Ok_0.1 == upload.1
            &&& result is Ok && !solution ==> result->Ok_0.2 == upload.2
            &&& result is Ok && !place ==> result->Ok_0.3 == upload.3
            &&& result is Ok ==> result->Ok_0.4 == upload.4
            &&& !challenge && !page && !solution && !place ==> result is Ok
        }),
{
    reveal_strlit("challenge");
    reveal_strlit("challenge_id");
    reveal_strlit("page");
    reveal_strlit("page_id");
    reveal_strlit("solution");
    reveal_strlit("solution_id");
    reveal_strlit("location");
    assert("challenge"@.len() == 9 && "challenge_id"@.len() == 12 && "page"@.len() == 4
        && "page_id"@.len() == 7 && "solution"@.len() == 8 && "solution_id"@.len() == 11
        && "location"@.len() == 8);
    assert("solution"@[0] != "location"@[0]);
}

/// The number of a target is positive and is read back; a blank field names nothing.
pub proof fn law_targets_are_read(value: Seq<char>, number: i32)
    ensures
        trimmed(value) == crate::numbers::integer_text(number as int) && number > 0 ==> target_id(
            value,
        ) == Ok::<Option<i32>, Failure>(Some(number)),
        trimmed(value) == crate::numbers::integer_text(number as int) && number <= 0 ==> target_id(
            value,
        ) is Err,
        trimmed(value).len() == 0 ==> target_id(value) == Ok::<Option<i32>, Failure>(None),
        target_id(value) matches Ok(Some(id)) ==> id > 0 && bounded_value(
            trimmed(value),
            i32::MIN as int,
            i32::MAX as int,
        ) == Some(id as int),
        target_id(value) matches Ok(None) ==> trimmed(value).len() == 0,
{
    crate::numbers::law_integer_text_reads_back(number as int);
    crate::numbers::lemma_integer_text_ends(number as int);
}

/// The name of an upload is what stands behind the last slash of its path, without white space around
/// it; it holds no slash and no backslash, and has 1 to 255 bytes.
pub proof fn law_names_are_the_last_part(folder: Seq<char>, name: Seq<char>, i: int)
    requires
        name.len() > 0,
        !name.contains('/'),
        name != "."@,
        name != ".."@,
    ensures
        file_name(folder + seq!['/'] + name) == Some(name),
        upload_name(folder + seq!['/'] + name) is Ok <==> 0 < trimmed(name).len() && byte_length(
            trimmed(name),
        ) <= 255 && !has_control(trimmed(name)),
        upload_name(folder + seq!['/'] + name) is Ok && 0 <= i < trimmed(name).len() ==> upload_name(
            folder + seq!['/'] + name,
        )->Ok_0[i] == if trimmed(name)[i] == '\\' || trimmed(name)[i] == '/' {
            '_'
        } else {
            trimmed(name)[i]
        },
{
    let path = folder + seq!['/'] + name;
    lemma_split_ends(folder, name);
    let parts = split(path, '/');
    assert(parts.last() == name);
    assert(last_part(parts, parts.len() as int) == Some(name));
}

/// A text is split into what its start is split into and then its last part.
proof fn lemma_split_ends(folder: Seq<char>, name: Seq<char>)
    requires
        !name.contains('/'),
    ensures
        split(folder + seq!['/'] + name, '/').len() >= 2,
        split(folder + seq!['/'] + name, '/').last() == name,
    decreases folder.len(),
{
    let path = folder + seq!['/'] + name;
    crate::text::lemma_first_index_bounds(path, '/');
    crate::text::lemma_first_index_bounds(folder, '/');
    assert(path[folder.len() as int] == '/');
    let i = crate::text::first_index(path, '/');
    let rest = path.skip(i + 1);
    if folder.contains('/') {
        let k = crate::text::first_index(folder, '/');
        assert(path[k] == '/');
        assert forall|j: int| 0 <= j < k implies path[j] != '/' by {
            assert(path[j] == folder[j]);
        }
        crate::text::lemma_first_index(path, '/', k);
        assert(rest =~= folder.skip(k + 1) + seq!['/'] + name);
        lemma_split_ends(folder.skip(k + 1), name);
        assert(split(path, '/') =~= seq![path.take(k)] + split(rest, '/'));
    } else {
        assert forall|j: int| 0 <= j < folder.len() implies path[j] != '/' by {
            assert(path[j] == folder[j]);
            assert(folder.contains(folder[j]));
        }
        crate::text::lemma_first_index(path, '/', folder.len() as int);
        assert(rest =~= name);
        crate::text::lemma_first_index_bounds(name, '/');
        assert(split(name, '/') == seq![name]);
        assert(split(path, '/') =~= seq![path.take(i)] + seq![name]);
    }
}

/// A place that goes nowhere up is kept to the letter but for the slashes at its start.
pub proof fn law_places_are_kept(location: Seq<char>)
    ensures
        location_of(location) is Ok ==> location_of(location)->Ok_0 == unrooted(location),
        location_of(seq!['/'] + location) == location_of(location),
        location.len() > 0 && location[0] != '/' && !has_control(location) && split(
            location,
            '/',
        )[0] != "."@ && (forall|i: int|
            0 <= i < split(location, '/').len() ==> #[trigger] split(location, '/')[i] != ".."@)
            ==> location_of(location) == Ok::<Seq<char>, Failure>(location),
        has_control(unrooted(location)) || unrooted(location).len() == 0 ==> location_of(location)
            == Err::<Seq<char>, Failure>(bad("File location is invalid"@)),
{
    assert((seq!['/'] + location).drop_first() =~= location);
    assert(unrooted(seq!['/'] + location) == unrooted(location));
}

} // verus!
