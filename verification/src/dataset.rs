//! Training data read from a file instead of the request body.
//!
//! A request naming a path chooses a file on the server's disk, which is how
//! arbitrary files get read if nothing stands in the way. Three things do:
//!
//! - the feature is off until the configuration names a directory,
//! - a path, read by the rules of the system the server runs on, must be
//!   relative and may only walk down from that directory,
//! - the place the path leads to is compared with the directory once symbolic
//!   links are resolved, so a link pointing out of it is caught rather than
//!   followed.
//!
//! Opening files is left to the caller, step by step: [`matrix_from_request`]
//! says whether there is a file to look for, [`load_matrix`] what to do with
//! it next, and [`begin_samples`] and [`continue_samples`] which of x and y is
//! looked at when.
//!
//! Error messages name only the path the request asked for, never where it
//! landed on disk and never what the file held.

use vstd::prelude::*;

use crate::config::{Config, ConfigView, Location};
use crate::error::{bad_request, outcome, refusal, ApiError, ErrorView};
use crate::number::{rows_view, Number};
use crate::text::{decimal, push_count, push_decimal};

verus! {

// -------------------------------------------------------------------- paths

/// The path starts with `/`.
pub open spec fn rooted(path: Seq<char>) -> bool {
    path.len() > 0 && path[0] == '/'
}

/// A component `..` starts at `index`.
pub open spec fn parent_at(path: Seq<char>, index: int) -> bool {
    &&& 0 <= index
    &&& index + 2 <= path.len()
    &&& path[index] == '.' && path[index + 1] == '.'
    &&& index == 0 || path[index - 1] == '/'
    &&& index + 2 == path.len() || path[index + 2] == '/'
}

/// The first component is `.`.
pub open spec fn current_first(path: Seq<char>) -> bool {
    path.len() > 0 && path[0] == '.' && (path.len() == 1 || path[1] == '/')
}

/// With `/` between components, every component of a relative path is the name
/// of something: none leads up, and none stays where it is for a start.
pub open spec fn walks_down(path: Seq<char>) -> bool {
    &&& !current_first(path)
    &&& forall|index: int| 0 <= index < path.len() ==> !#[trigger] parent_at(path, index)
}

/// The path has nothing in it that one system takes for a separator or a drive
/// and another for part of a name.
pub open spec fn portable(path: Seq<char>) -> bool {
    forall|i: int| 0 <= i < path.len() ==> #[trigger] path[i] != '\\' && path[i] != ':'
}

/// What a component of a path is.
#[derive(Clone, Copy, Debug, PartialEq, Eq, Structural)]
pub enum PathPart {
    /// A drive or a share.
    Prefix,
    /// The root of the file system, or of what the prefix names.
    Root,
    /// `.`
    Current,
    /// `..`
    Parent,
    /// The name of a file or a directory.
    Name,
}

/// Every component is the name of something.
pub open spec fn names_only(parts: Seq<PathPart>) -> bool {
    forall|i: int| 0 <= i < parts.len() ==> #[trigger] parts[i] == PathPart::Name
}

/// `Path::is_absolute`, by the rules of the system the server runs on. What is
/// claimed holds on all of them: a path is absolute only if it starts with `/`,
/// or has a backslash or a colon in it. Whether one that does is absolute
/// depends on the system and is not said.
#[verifier::external_body]
fn path_is_absolute(text: &str) -> (absolute: bool)
    ensures
        absolute ==> rooted(text@) || !portable(text@),
{
    std::path::Path::new(text).is_absolute()
}

/// `Path::components`, by the rules of the system the server runs on. What is
/// claimed holds on all of them: the components are nothing but names only if
/// the path does not start with `/`, has no `..` between slashes and no `.`
/// before the first; and they are, if in addition there is no backslash and no
/// colon in it. What a path with one of these is made of depends on the system
/// and is not said.
#[verifier::external_body]
fn path_parts(text: &str) -> (parts: Vec<PathPart>)
    ensures
        names_only(parts@) ==> !rooted(text@) && walks_down(text@),
        portable(text@) && !rooted(text@) && walks_down(text@) ==> names_only(parts@),
{
    let components = std::path::Path::new(text).components();
    components
        .map(|component| match component {
            std::path::Component::Prefix(_) => PathPart::Prefix,
            std::path::Component::RootDir => PathPart::Root,
            std::path::Component::CurDir => PathPart::Current,
            std::path::Component::ParentDir => PathPart::Parent,
            std::path::Component::Normal(_) => PathPart::Name,
        })
        .collect()
}

/// A path as a request names it, and as the system reads it.
#[derive(Debug)]
pub struct RequestedPath {
    pub text: String,
    pub absolute: bool,
    pub parts: Vec<PathPart>,
}

/// A [`RequestedPath`] as a value.
#[verifier::ext_equal]
pub struct RequestedPathView {
    pub text: Seq<char>,
    pub absolute: bool,
    pub parts: Seq<PathPart>,
}

impl View for RequestedPath {
    type V = RequestedPathView;

    open spec fn view(&self) -> RequestedPathView {
        RequestedPathView { text: self.text@, absolute: self.absolute, parts: self.parts@ }
    }
}

/// A path that may be sent, taken by its view.
pub open spec fn path_view(path: Option<RequestedPath>) -> Option<RequestedPathView> {
    match path {
        Some(path) => Some(path@),
        None => None,
    }
}

impl RequestedPathView {
    /// What every system agrees on: which paths do not only walk down, and that
    /// a portable one that does is neither absolute nor refused.
    pub open spec fn wf(self) -> bool {
        &&& names_only(self.parts) ==> !rooted(self.text) && walks_down(self.text)
        &&& portable(self.text) && !rooted(self.text) && walks_down(self.text) ==> names_only(
            self.parts,
        )
        &&& self.absolute ==> rooted(self.text) || !portable(self.text)
    }
}

/// Reads a path by the rules of the system the server runs on.
pub fn read_path(text: String) -> (path: RequestedPath)
    ensures
        path@.text == text@,
        path@.wf(),
{
    let absolute = path_is_absolute(text.as_str());
    let parts = path_parts(text.as_str());
    RequestedPath { text, absolute, parts }
}

/// Reads a path that may be sent.
pub fn read_sent_path(text: Option<String>) -> (path: Option<RequestedPath>)
    ensures
        read_from(text, path_view(path)),
{
    match text {
        Some(text) => Some(read_path(text)),
        None => None,
    }
}

/// `path` is what was sent as `text`, read.
pub open spec fn read_from(text: Option<String>, path: Option<RequestedPathView>) -> bool {
    match (text, path) {
        (Some(text), Some(path)) => path.text == text@ && path.wf(),
        (None, None) => true,
        _ => false,
    }
}

/// Whether every component is the name of something.
fn are_names_only(parts: &Vec<PathPart>) -> (result: bool)
    ensures
        result == names_only(parts@),
{
    let mut index: usize = 0;
    while index < parts.len()
        invariant
            index <= parts@.len(),
            forall|i: int| 0 <= i < index ==> #[trigger] parts@[i] == PathPart::Name,
        decreases parts@.len() - index,
    {
        if parts[index] != PathPart::Name {
            return false;
        }
        index += 1;
    }
    true
}

// ----------------------------------------------------------------- messages

/// What is said of a path while no directory is configured.
pub open spec fn no_directory_message(field: Seq<char>) -> Seq<char> {
    "'"@ + field
        + "_path' needs the server to have been started with NN_API_DATA_DIR set; send '"@
        + field + "' inline instead"@
}

/// What is said of an absolute path.
pub open spec fn absolute_message(field: Seq<char>) -> Seq<char> {
    "'"@ + field
        + "_path' must be relative to the server's data directory, not an absolute path"@
}

/// What is said of a path that does not only walk down.
pub open spec fn below_message(field: Seq<char>) -> Seq<char> {
    "'"@ + field + "_path' may only name a file below the server's data directory"@
}

/// How a message about one file begins.
pub open spec fn about_file(field: Seq<char>, requested: Seq<char>) -> Seq<char> {
    "'"@ + field + "_path': '"@ + requested + "'"@
}

/// What is said of a path that leads nowhere.
pub open spec fn no_file_message(field: Seq<char>, requested: Seq<char>) -> Seq<char> {
    "'"@ + field + "_path': there is no file '"@ + requested + "' in the server's data directory"@
}

/// What is said of a path that leads out of the directory.
pub open spec fn outside_message(field: Seq<char>, requested: Seq<char>) -> Seq<char> {
    about_file(field, requested) + " leads outside the server's data directory"@
}

/// What is said of a file that is too big.
pub open spec fn too_big_message(
    field: Seq<char>,
    requested: Seq<char>,
    size: nat,
    limit: nat,
) -> Seq<char> {
    about_file(field, requested) + " is "@ + decimal(size) + " bytes, the limit is "@ + decimal(
        limit,
    )
}

/// What is said of a file that cannot be read.
pub open spec fn unreadable_message(
    field: Seq<char>,
    requested: Seq<char>,
    reason: Seq<char>,
) -> Seq<char> {
    about_file(field, requested) + " cannot be read: "@ + reason
}

/// What is said of a file that holds something else than a matrix: where it
/// stops being one, not what stands there.
pub open spec fn not_a_matrix_message(
    field: Seq<char>,
    requested: Seq<char>,
    line: nat,
    column: nat,
) -> Seq<char> {
    about_file(field, requested) + " does not hold a JSON array of arrays of numbers (line "@
        + decimal(line) + ", column "@ + decimal(column) + ")"@
}

/// What is said of a field sent in both ways.
pub open spec fn both_message(field: Seq<char>) -> Seq<char> {
    "send '"@ + field + "' or '"@ + field + "_path', not both"@
}

/// What is said of a field sent in neither way.
pub open spec fn missing_message(field: Seq<char>) -> Seq<char> {
    "'"@ + field + "' is missing; send it inline or name a file with '"@ + field + "_path'"@
}

/// Begins a message about one file.
fn message_about_file(field: &str, requested: &str) -> (message: String)
    ensures
        message@ == about_file(field@, requested@),
{
    let mut message = "'".to_owned();
    message.append(field);
    message.append("_path': '");
    message.append(requested);
    message.append("'");
    message
}

// -------------------------------------------------------------------- steps

/// Why a path may not even be looked for.
pub open spec fn path_fault(
    config: ConfigView,
    field: Seq<char>,
    requested: RequestedPathView,
) -> Option<ErrorView> {
    if config.data_dir is None {
        Some(bad_request(no_directory_message(field)))
    } else if requested.absolute {
        Some(bad_request(absolute_message(field)))
    } else if !names_only(requested.parts) {
        Some(bad_request(below_message(field)))
    } else {
        None
    }
}

/// Whether a path may be looked for below the data directory.
pub fn check_path(config: &Config, field: &str, requested: &RequestedPath) -> (checked: Result<
    (),
    ApiError,
>)
    ensures
        refusal(checked) == path_fault(config@, field@, requested@),
{
    if config.data_dir.is_none() {
        let mut message = "'".to_owned();
        message.append(field);
        message.append(
            "_path' needs the server to have been started with NN_API_DATA_DIR set; send '",
        );
        message.append(field);
        message.append("' inline instead");
        return Err(ApiError::bad_request(message));
    }
    if requested.absolute {
        let mut message = "'".to_owned();
        message.append(field);
        message.append(
            "_path' must be relative to the server's data directory, not an absolute path",
        );
        return Err(ApiError::bad_request(message));
    }
    if !are_names_only(&requested.parts) {
        let mut message = "'".to_owned();
        message.append(field);
        message.append("_path' may only name a file below the server's data directory");
        return Err(ApiError::bad_request(message));
    }
    Ok(())
}

/// Where a request's matrix comes from.
#[derive(Debug)]
pub enum DataSource {
    /// The request carried it.
    Inline(Vec<Vec<Number>>),
    /// The file to look for below the data directory.
    File(RequestedPath),
}

/// A [`DataSource`] as a value.
#[verifier::ext_equal]
pub enum DataSourceView {
    Inline(Seq<Seq<Number>>),
    File(RequestedPathView),
}

impl View for DataSource {
    type V = DataSourceView;

    open spec fn view(&self) -> DataSourceView {
        match self {
            DataSource::Inline(rows) => DataSourceView::Inline(rows_view(rows@)),
            DataSource::File(path) => DataSourceView::File(path@),
        }
    }
}

/// A matrix arrives in exactly one way: inline, or in a file the request may
/// look for.
pub open spec fn source_of(
    config: ConfigView,
    field: Seq<char>,
    inline: Option<Vec<Vec<Number>>>,
    path: Option<RequestedPathView>,
) -> Result<DataSourceView, ErrorView> {
    match (inline, path) {
        (Some(_), Some(_)) => Err(bad_request(both_message(field))),
        (None, None) => Err(bad_request(missing_message(field))),
        (Some(rows), None) => Ok(DataSourceView::Inline(rows_view(rows@))),
        (None, Some(path)) => match path_fault(config, field, path) {
            Some(error) => Err(error),
            None => Ok(DataSourceView::File(path)),
        },
    }
}

/// The one way in which a request sends the matrix called `field`. Where it is
/// a file, the system's rules for paths decide with: the answer is the one
/// [`matrix_from_path`] gives for what the system reads in the path.
pub fn matrix_from_request(
    config: &Config,
    field: &str,
    inline: Option<Vec<Vec<Number>>>,
    path: Option<String>,
) -> (source: Result<DataSource, ApiError>)
    ensures
        exists|read: Option<RequestedPathView>| #[trigger]
            read_from(path, read) && outcome(source) == source_of(config@, field@, inline, read),
        source matches Ok(DataSource::Inline(rows)) ==> inline == Some(rows),
{
    let read = read_sent_path(path);
    matrix_from_path(config, field, inline, read)
}

/// The one way in which a request sends the matrix called `field`, its path
/// read.
pub fn matrix_from_path(
    config: &Config,
    field: &str,
    inline: Option<Vec<Vec<Number>>>,
    path: Option<RequestedPath>,
) -> (source: Result<DataSource, ApiError>)
    ensures
        outcome(source) == source_of(config@, field@, inline, path_view(path)),
        source matches Ok(DataSource::Inline(rows)) ==> inline == Some(rows),
        source matches Ok(DataSource::File(requested)) ==> path == Some(requested),
{
    match (inline, path) {
        (Some(_), Some(_)) => {
            let mut message = "send '".to_owned();
            message.append(field);
            message.append("' or '");
            message.append(field);
            message.append("_path', not both");
            Err(ApiError::bad_request(message))
        },
        (None, None) => {
            let mut message = "'".to_owned();
            message.append(field);
            message.append("' is missing; send it inline or name a file with '");
            message.append(field);
            message.append("_path'");
            Err(ApiError::bad_request(message))
        },
        (Some(rows), None) => Ok(DataSource::Inline(rows)),
        (None, Some(path)) => match check_path(config, field, &path) {
            Ok(_) => Ok(DataSource::File(path)),
            Err(error) => Err(error),
        },
    }
}

/// Why a request may not have the file its path leads to. `found` is where
/// that is, symbolic links resolved, if it is anywhere.
pub open spec fn resolve_fault(
    config: ConfigView,
    field: Seq<char>,
    requested: RequestedPathView,
    found: Option<Location>,
) -> Option<ErrorView> {
    match path_fault(config, field, requested) {
        Some(error) => Some(error),
        None => match found {
            None => Some(bad_request(no_file_message(field, requested.text))),
            Some(place) => if config.data_dir->0.is_prefix_of(place@) {
                None
            } else {
                Some(bad_request(outside_message(field, requested.text)))
            },
        },
    }
}

/// Whether two components have the same name.
fn same_part(left: &Vec<u8>, right: &Vec<u8>) -> (equal: bool)
    ensures
        equal == (left@ == right@),
{
    if left.len() != right.len() {
        return false;
    }
    let mut index: usize = 0;
    while index < left.len()
        invariant
            index <= left@.len(),
            left@.len() == right@.len(),
            forall|i: int| 0 <= i < index ==> left@[i] == right@[i],
        decreases left@.len() - index,
    {
        if left[index] != right[index] {
            return false;
        }
        index += 1;
    }
    assert(left@ =~= right@);
    true
}

/// Whether `place` is `base` or lies below it.
fn is_within(base: &Location, place: &Location) -> (within: bool)
    ensures
        within == base@.is_prefix_of(place@),
{
    if place.parts.len() < base.parts.len() {
        return false;
    }
    let mut index: usize = 0;
    while index < base.parts.len()
        invariant
            index <= base.parts@.len(),
            base.parts@.len() <= place.parts@.len(),
            forall|i: int| 0 <= i < index ==> base@[i] == place@[i],
        decreases base.parts@.len() - index,
    {
        assert(base@[index as int] == base.parts@[index as int]@);
        assert(place@[index as int] == place.parts@[index as int]@);
        if !same_part(&base.parts[index], &place.parts[index]) {
            assert(place@.subrange(0, base@.len() as int)[index as int] == place@[index as int]);
            return false;
        }
        index += 1;
    }
    assert(base@ =~= place@.subrange(0, base@.len() as int));
    true
}

/// The file a request's path names, or an error saying why it may not have
/// it. `found` is where the path leads from the data directory, symbolic links
/// resolved, and `None` where it leads nowhere.
pub fn resolve(
    config: &Config,
    field: &str,
    requested: &RequestedPath,
    found: Option<Location>,
) -> (file: Result<Location, ApiError>)
    ensures
        refusal(file) == resolve_fault(config@, field@, requested@, found),
        file matches Ok(place) ==> {
            &&& found == Some(place)
            &&& config@.data_dir matches Some(base) && base.is_prefix_of(place@)
        },
{
    match check_path(config, field, requested) {
        Ok(_) => {},
        Err(error) => return Err(error),
    }
    match (&config.data_dir, found) {
        (Some(base), Some(place)) => {
            if is_within(base, &place) {
                Ok(place)
            } else {
                let mut message = message_about_file(field, requested.text.as_str());
                message.append(" leads outside the server's data directory");
                Err(ApiError::bad_request(message))
            }
        },
        _ => {
            let mut message = "'".to_owned();
            message.append(field);
            message.append("_path': there is no file '");
            message.append(requested.text.as_str());
            message.append("' in the server's data directory");
            Err(ApiError::bad_request(message))
        },
    }
}

/// Whether a file of `size` bytes may be read.
pub fn check_size(config: &Config, field: &str, requested: &str, size: u64) -> (checked: Result<
    (),
    ApiError,
>)
    ensures
        refusal(checked) == (if size > config@.max_file_bytes {
            Some(
                bad_request(
                    too_big_message(
                        field@,
                        requested@,
                        size as nat,
                        config@.max_file_bytes as nat,
                    ),
                ),
            )
        } else {
            None
        }),
{
    if size > config.max_file_bytes {
        let mut message = message_about_file(field, requested);
        message.append(" is ");
        push_decimal(&mut message, size);
        message.append(" bytes, the limit is ");
        push_decimal(&mut message, config.max_file_bytes);
        return Err(ApiError::bad_request(message));
    }
    Ok(())
}

/// The error of a file that could not be read, for the `reason` the operating
/// system gave.
pub fn unreadable(field: &str, requested: &str, reason: &str) -> (error: ApiError)
    ensures
        error@ == bad_request(unreadable_message(field@, requested@, reason@)),
{
    let mut message = message_about_file(field, requested);
    message.append(" cannot be read: ");
    message.append(reason);
    ApiError::bad_request(message)
}

/// The error of a file that could not be parsed past a certain point.
pub fn not_a_matrix(field: &str, requested: &str, line: usize, column: usize) -> (error: ApiError)
    ensures
        error@ == bad_request(
            not_a_matrix_message(field@, requested@, line as nat, column as nat),
        ),
{
    let mut message = message_about_file(field, requested);
    message.append(" does not hold a JSON array of arrays of numbers (line ");
    push_count(&mut message, line);
    message.append(", column ");
    push_count(&mut message, column);
    message.append(")");
    ApiError::bad_request(message)
}

// ------------------------------------------------------------------ loading

/// How far the loading of a file has come, and so what is to be done next.
#[derive(Debug)]
pub enum LoadState {
    /// Find out where the path leads from the data directory.
    Locating,
    /// Find out how big the file is.
    Measuring(Location),
    /// Read the file and parse it.
    Reading(Location),
    /// Nothing: this is the matrix.
    Loaded(Vec<Vec<Number>>),
}

/// What came of it.
#[derive(Debug)]
pub enum LoadEvent {
    /// Where the path leads, symbolic links resolved, if it leads anywhere.
    Place(Option<Location>),
    /// The size of the file in bytes.
    Size(u64),
    /// The operating system's reason for refusing the file.
    Unreadable(String),
    /// Where the parser found that the file holds no matrix.
    NotAMatrix { line: usize, column: usize },
    /// What the file holds.
    Rows(Vec<Vec<Number>>),
}

impl LoadEvent {
    /// The event is one that can come of what is done in `state`.
    pub open spec fn answers(self, state: LoadState) -> bool {
        match state {
            LoadState::Locating => self is Place,
            LoadState::Measuring(_) => self is Size || self is Unreadable,
            LoadState::Reading(_) => self is Unreadable || self is NotAMatrix || self is Rows,
            LoadState::Loaded(_) => false,
        }
    }
}

impl LoadState {
    /// A file that is measured or read lies in the data directory.
    pub open spec fn inside(self, config: ConfigView) -> bool {
        match self {
            LoadState::Measuring(place) => config.data_dir matches Some(base)
                && base.is_prefix_of(place@),
            LoadState::Reading(place) => config.data_dir matches Some(base) && base.is_prefix_of(
                place@,
            ),
            _ => true,
        }
    }
}

/// What follows `state` once `event` has come of it: locate the file, measure
/// it, read it, in this order, each only if the step before allows it.
pub open spec fn after(
    config: ConfigView,
    field: Seq<char>,
    requested: RequestedPathView,
    state: LoadState,
    event: LoadEvent,
) -> Result<LoadState, ErrorView> {
    match (state, event) {
        (LoadState::Locating, LoadEvent::Place(found)) => match resolve_fault(
            config,
            field,
            requested,
            found,
        ) {
            Some(error) => Err(error),
            None => Ok(LoadState::Measuring(found->0)),
        },
        (LoadState::Measuring(place), LoadEvent::Size(size)) => if size > config.max_file_bytes {
            Err(
                bad_request(
                    too_big_message(
                        field,
                        requested.text,
                        size as nat,
                        config.max_file_bytes as nat,
                    ),
                ),
            )
        } else {
            Ok(LoadState::Reading(place))
        },
        (LoadState::Reading(_), LoadEvent::Rows(rows)) => Ok(LoadState::Loaded(rows)),
        (LoadState::Reading(_), LoadEvent::NotAMatrix { line, column }) => Err(
            bad_request(not_a_matrix_message(field, requested.text, line as nat, column as nat)),
        ),
        (_, LoadEvent::Unreadable(reason)) => Err(
            bad_request(unreadable_message(field, requested.text, reason@)),
        ),
        _ => Ok(state),
    }
}

/// One step of loading the matrix that `requested` names: what to do after
/// `event`, or the error to answer with. Loading begins in `Locating`.
pub fn load_matrix(
    config: &Config,
    field: &str,
    requested: &RequestedPath,
    state: LoadState,
    event: LoadEvent,
) -> (next: Result<LoadState, ApiError>)
    requires
        event.answers(state),
    ensures
        match next {
            Ok(next) => after(config@, field@, requested@, state, event) == Ok::<
                LoadState,
                ErrorView,
            >(next),
            Err(error) => after(config@, field@, requested@, state, event) == Err::<
                LoadState,
                ErrorView,
            >(error@),
        },
{
    match (state, event) {
        (LoadState::Locating, LoadEvent::Place(found)) => match resolve(
            config,
            field,
            requested,
            found,
        ) {
            Ok(place) => Ok(LoadState::Measuring(place)),
            Err(error) => Err(error),
        },
        (LoadState::Measuring(place), LoadEvent::Size(size)) => match check_size(
            config,
            field,
            requested.text.as_str(),
            size,
        ) {
            Ok(_) => Ok(LoadState::Reading(place)),
            Err(error) => Err(error),
        },
        (LoadState::Reading(_), LoadEvent::Rows(rows)) => Ok(LoadState::Loaded(rows)),
        (LoadState::Reading(_), LoadEvent::NotAMatrix { line, column }) => Err(
            not_a_matrix(field, requested.text.as_str(), line, column),
        ),
        (_, LoadEvent::Unreadable(reason)) => Err(
            unreadable(field, requested.text.as_str(), reason.as_str()),
        ),
        (state, _) => Ok(state),
    }
}

// ------------------------------------------------------------------ samples

/// How far the gathering of x and y has come: x is settled, inline or from its
/// file, before y is looked at.
#[derive(Debug)]
pub enum SampleState {
    /// x is in this file.
    AwaitX { path: RequestedPath, y: Option<Vec<Vec<Number>>>, y_path: Option<RequestedPath> },
    /// x is here, y is in this file.
    AwaitY { x: Vec<Vec<Number>>, path: RequestedPath },
    /// Both are here.
    Ready { x: Vec<Vec<Number>>, y: Vec<Vec<Number>> },
}

/// What follows once x is here.
pub open spec fn x_settled(
    config: ConfigView,
    x: Vec<Vec<Number>>,
    y: Option<Vec<Vec<Number>>>,
    y_path: Option<RequestedPath>,
) -> Result<SampleState, ErrorView> {
    match source_of(config, "y"@, y, path_view(y_path)) {
        Err(error) => Err(error),
        Ok(DataSourceView::Inline(_)) => Ok(SampleState::Ready { x, y: y->0 }),
        Ok(DataSourceView::File(_)) => Ok(SampleState::AwaitY { x, path: y_path->0 }),
    }
}

/// What a request that sends x and y begins with.
pub open spec fn samples_begun(
    config: ConfigView,
    x: Option<Vec<Vec<Number>>>,
    x_path: Option<RequestedPath>,
    y: Option<Vec<Vec<Number>>>,
    y_path: Option<RequestedPath>,
) -> Result<SampleState, ErrorView> {
    match source_of(config, "x"@, x, path_view(x_path)) {
        Err(error) => Err(error),
        Ok(DataSourceView::Inline(_)) => x_settled(config, x->0, y, y_path),
        Ok(DataSourceView::File(_)) => Ok(SampleState::AwaitX { path: x_path->0, y, y_path }),
    }
}

/// What follows once the file that was awaited gave `rows`.
pub open spec fn samples_continued(
    config: ConfigView,
    state: SampleState,
    rows: Vec<Vec<Number>>,
) -> Result<SampleState, ErrorView> {
    match state {
        SampleState::AwaitX { y, y_path, .. } => x_settled(config, rows, y, y_path),
        SampleState::AwaitY { x, .. } => Ok(SampleState::Ready { x, y: rows }),
        SampleState::Ready { .. } => Ok(state),
    }
}

/// What follows once x is here.
fn settle_x(
    config: &Config,
    x: Vec<Vec<Number>>,
    y: Option<Vec<Vec<Number>>>,
    y_path: Option<RequestedPath>,
) -> (state: Result<SampleState, ApiError>)
    ensures
        match state {
            Ok(state) => x_settled(config@, x, y, y_path) == Ok::<SampleState, ErrorView>(state),
            Err(error) => x_settled(config@, x, y, y_path) == Err::<SampleState, ErrorView>(error@),
        },
{
    match matrix_from_path(config, "y", y, y_path) {
        Ok(DataSource::Inline(y)) => Ok(SampleState::Ready { x, y }),
        Ok(DataSource::File(path)) => Ok(SampleState::AwaitY { x, path }),
        Err(error) => Err(error),
    }
}

/// Begins to gather the x and y a request sends, inline or as files.
pub fn begin_samples(
    config: &Config,
    x: Option<Vec<Vec<Number>>>,
    x_path: Option<RequestedPath>,
    y: Option<Vec<Vec<Number>>>,
    y_path: Option<RequestedPath>,
) -> (state: Result<SampleState, ApiError>)
    ensures
        match state {
            Ok(state) => samples_begun(config@, x, x_path, y, y_path) == Ok::<
                SampleState,
                ErrorView,
            >(state),
            Err(error) => samples_begun(config@, x, x_path, y, y_path) == Err::<
                SampleState,
                ErrorView,
            >(error@),
        },
{
    match matrix_from_path(config, "x", x, x_path) {
        Ok(DataSource::Inline(x)) => settle_x(config, x, y, y_path),
        Ok(DataSource::File(path)) => Ok(SampleState::AwaitX { path, y, y_path }),
        Err(error) => Err(error),
    }
}

/// Goes on with what the file that was awaited gave.
pub fn continue_samples(config: &Config, state: SampleState, rows: Vec<Vec<Number>>) -> (next: Result<
    SampleState,
    ApiError,
>)
    requires
        !(state is Ready),
    ensures
        match next {
            Ok(next) => samples_continued(config@, state, rows) == Ok::<SampleState, ErrorView>(
                next,
            ),
            Err(error) => samples_continued(config@, state, rows) == Err::<SampleState, ErrorView>(
                error@,
            ),
        },
{
    match state {
        SampleState::AwaitX { path: _, y, y_path } => settle_x(config, rows, y, y_path),
        SampleState::AwaitY { x, path: _ } => Ok(SampleState::Ready { x, y: rows }),
        SampleState::Ready { x, y } => Ok(SampleState::Ready { x, y }),
    }
}

// --------------------------------------------------------------------- laws

/// Whatever the disk answers, nothing outside the data directory is measured
/// or read.
pub proof fn loading_stays_inside(
    config: ConfigView,
    field: Seq<char>,
    requested: RequestedPathView,
    state: LoadState,
    event: LoadEvent,
)
    requires
        state.inside(config),
        event.answers(state),
        after(config, field, requested, state, event) is Ok,
    ensures
        after(config, field, requested, state, event)->Ok_0.inside(config),
        state is Locating ==> path_fault(config, field, requested) is None,
{
}

/// No request reaches a file outside the data directory: without a directory
/// nothing is opened, and with one only what lies in it.
pub proof fn the_directory_is_a_boundary(
    config: ConfigView,
    field: Seq<char>,
    requested: RequestedPathView,
    found: Option<Location>,
)
    requires
        requested.wf(),
    ensures
        config.data_dir is None ==> resolve_fault(config, field, requested, found) is Some,
        rooted(requested.text) ==> resolve_fault(config, field, requested, found) is Some,
        forall|index: int|
            #![trigger parent_at(requested.text, index)]
            parent_at(requested.text, index) ==> resolve_fault(config, field, requested, found) is Some,
        resolve_fault(config, field, requested, found) is None ==> {
            &&& found matches Some(place) && config.data_dir matches Some(base)
                && base.is_prefix_of(place@)
        },
{
    assert forall|index: int|
        #![trigger parent_at(requested.text, index)]
        parent_at(requested.text, index) implies resolve_fault(
        config,
        field,
        requested,
        found,
    ) is Some by {
        assert(0 <= index < requested.text.len());
    }
}

/// A path without backslashes and colons is judged by its text alone, the same
/// on every system: it may be looked for exactly if it does not start with `/`
/// and only walks down.
pub proof fn a_portable_path_is_judged_by_its_text(
    config: ConfigView,
    field: Seq<char>,
    requested: RequestedPathView,
)
    requires
        requested.wf(),
        portable(requested.text),
        config.data_dir is Some,
    ensures
        path_fault(config, field, requested) is None <==> !rooted(requested.text) && walks_down(
            requested.text,
        ),
        !rooted(requested.text) && !walks_down(requested.text) ==> path_fault(
            config,
            field,
            requested,
        ) == Some(bad_request(below_message(field))),
{
}

/// A refusal names the path the request asked for and nothing else of the
/// disk: neither the directory the server reads from nor the place the path
/// leads to shows in it.
pub proof fn refusals_keep_places_to_themselves(
    here: ConfigView,
    there: ConfigView,
    field: Seq<char>,
    requested: RequestedPathView,
    one: Location,
    other: Location,
)
    requires
        here.data_dir is Some,
        there.data_dir is Some,
        resolve_fault(here, field, requested, Some(one)) is Some,
        resolve_fault(there, field, requested, Some(other)) is Some,
    ensures
        resolve_fault(here, field, requested, Some(one)) == resolve_fault(
            there,
            field,
            requested,
            Some(other),
        ),
{
}

/// A matrix that is sent in both ways or in neither is refused, whatever the
/// server's settings are; one that is sent inline is taken as it is.
pub proof fn a_matrix_arrives_in_one_way(
    config: ConfigView,
    field: Seq<char>,
    inline: Option<Vec<Vec<Number>>>,
    path: Option<RequestedPathView>,
)
    ensures
        (inline is Some) == (path is Some) ==> source_of(config, field, inline, path) is Err,
        inline is Some && path is None ==> source_of(config, field, inline, path) == Ok::<
            DataSourceView,
            ErrorView,
        >(DataSourceView::Inline(rows_view(inline->0@))),
{
}

/// x and y may arrive in different ways, and it makes no difference which:
/// whether each was inline or in a file that gave the same rows, both end up as
/// the same samples.
pub proof fn the_two_ways_can_be_mixed(
    config: ConfigView,
    x: Vec<Vec<Number>>,
    y: Vec<Vec<Number>>,
    x_path: RequestedPath,
    y_path: RequestedPath,
)
    requires
        path_fault(config, "x"@, x_path@) is None,
        path_fault(config, "y"@, y_path@) is None,
    ensures
        ({
            let ready = Ok::<SampleState, ErrorView>(SampleState::Ready { x, y });
            let await_x = samples_begun(config, None, Some(x_path), Some(y), None);
            let await_y = samples_begun(config, Some(x), None, None, Some(y_path));
            let await_both = samples_begun(config, None, Some(x_path), None, Some(y_path));
            &&& samples_begun(config, Some(x), None, Some(y), None) == ready
            &&& await_x is Ok && samples_continued(config, await_x->Ok_0, x) == ready
            &&& await_y is Ok && samples_continued(config, await_y->Ok_0, y) == ready
            &&& await_both is Ok && samples_continued(config, await_both->Ok_0, x) is Ok
            &&& samples_continued(
                config,
                samples_continued(config, await_both->Ok_0, x)->Ok_0,
                y,
            ) == ready
        }),
{
}

/// A path that may be looked for is relative, names things only, and needs a
/// directory to be relative to; what stands in the way is said in this order.
pub proof fn a_path_is_refused_for_the_first_of_these(
    config: ConfigView,
    field: Seq<char>,
    requested: RequestedPathView,
)
    ensures
        path_fault(config, field, requested) is None <==> {
            &&& config.data_dir is Some
            &&& !requested.absolute
            &&& forall|i: int|
                0 <= i < requested.parts.len() ==> #[trigger] requested.parts[i] == PathPart::Name
        },
        config.data_dir is None ==> path_fault(config, field, requested) == Some(
            bad_request(
                "'"@ + field
                    + "_path' needs the server to have been started with NN_API_DATA_DIR set; send '"@
                    + field + "' inline instead"@,
            ),
        ),
        config.data_dir is Some && requested.absolute ==> path_fault(config, field, requested)
            == Some(
            bad_request(
                "'"@ + field
                    + "_path' must be relative to the server's data directory, not an absolute path"@,
            ),
        ),
        config.data_dir is Some && !requested.absolute && (exists|i: int|
            0 <= i < requested.parts.len() && #[trigger] requested.parts[i] != PathPart::Name)
            ==> path_fault(config, field, requested) == Some(
            bad_request(
                "'"@ + field + "_path' may only name a file below the server's data directory"@,
            ),
        ),
{
}

/// A matrix that is sent in both ways, or in neither, is refused by the name of
/// its field; one in a file is looked for where its path may be, and refused as
/// the path is where it may not.
pub proof fn the_way_a_matrix_arrives_is_told(
    config: ConfigView,
    field: Seq<char>,
    rows: Vec<Vec<Number>>,
    path: RequestedPathView,
)
    ensures
        source_of(config, field, Some(rows), Some(path)) == Err::<DataSourceView, ErrorView>(
            bad_request("send '"@ + field + "' or '"@ + field + "_path', not both"@),
        ),
        source_of(config, field, None, None) == Err::<DataSourceView, ErrorView>(
            bad_request(
                "'"@ + field + "' is missing; send it inline or name a file with '"@ + field
                    + "_path'"@,
            ),
        ),
        path_fault(config, field, path) is None ==> source_of(config, field, None, Some(path))
            == Ok::<DataSourceView, ErrorView>(DataSourceView::File(path)),
        path_fault(config, field, path) matches Some(error) ==> source_of(
            config,
            field,
            None,
            Some(path),
        ) == Err::<DataSourceView, ErrorView>(error),
        source_of(config, field, Some(rows), None) matches Ok(DataSourceView::Inline(taken))
            && taken.len() == rows@.len() && forall|i: int|
            0 <= i < rows@.len() ==> #[trigger] taken[i] == rows@[i]@,
{
}

/// A file that is found is measured where it lies, if that is below the data
/// directory, component by component; and else it is refused by the path that
/// was asked for.
pub proof fn a_file_that_is_found_is_measured(
    config: ConfigView,
    field: Seq<char>,
    requested: RequestedPathView,
    base: Seq<Seq<u8>>,
    place: Location,
)
    requires
        config.data_dir == Some(base),
        path_fault(config, field, requested) is None,
    ensures
        ({
            let next = after(
                config,
                field,
                requested,
                LoadState::Locating,
                LoadEvent::Place(Some(place)),
            );
            let below = base.len() <= place@.len() && forall|i: int|
                0 <= i < base.len() ==> #[trigger] base[i] == place@[i];
            &&& below ==> next == Ok::<LoadState, ErrorView>(LoadState::Measuring(place))
            &&& !below ==> next == Err::<LoadState, ErrorView>(
                bad_request(
                    "'"@ + field + "_path': '"@ + requested.text + "'"@
                        + " leads outside the server's data directory"@,
                ),
            )
            &&& after(config, field, requested, LoadState::Locating, LoadEvent::Place(None))
                == Err::<LoadState, ErrorView>(
                bad_request(
                    "'"@ + field + "_path': there is no file '"@ + requested.text
                        + "' in the server's data directory"@,
                ),
            )
        }),
{
    if base.len() <= place@.len() && forall|i: int|
        0 <= i < base.len() ==> #[trigger] base[i] == place@[i] {
        assert(base =~= place@.subrange(0, base.len() as int));
    }
    if base.is_prefix_of(place@) {
        assert forall|i: int| 0 <= i < base.len() implies #[trigger] base[i] == place@[i] by {
            assert(place@.subrange(0, base.len() as int)[i] == place@[i]);
        }
    }
}

/// A file is read where it was measured, if it is not bigger than the limit,
/// and what it holds is the matrix; whatever goes wrong is said of the path that
/// was asked for.
pub proof fn a_file_is_read_as_it_is(
    config: ConfigView,
    field: Seq<char>,
    requested: RequestedPathView,
    place: Location,
    size: u64,
    rows: Vec<Vec<Number>>,
    reason: String,
    line: usize,
    column: usize,
)
    ensures
        ({
            let measured = after(
                config,
                field,
                requested,
                LoadState::Measuring(place),
                LoadEvent::Size(size),
            );
            let about = "'"@ + field + "_path': '"@ + requested.text + "'"@;
            &&& size <= config.max_file_bytes ==> measured == Ok::<LoadState, ErrorView>(
                LoadState::Reading(place),
            )
            &&& size > config.max_file_bytes ==> measured == Err::<LoadState, ErrorView>(
                bad_request(
                    about + " is "@ + decimal(size as nat) + " bytes, the limit is "@ + decimal(
                        config.max_file_bytes as nat,
                    ),
                ),
            )
            &&& after(config, field, requested, LoadState::Reading(place), LoadEvent::Rows(rows))
                == Ok::<LoadState, ErrorView>(LoadState::Loaded(rows))
            &&& after(
                config,
                field,
                requested,
                LoadState::Reading(place),
                LoadEvent::NotAMatrix { line, column },
            ) == Err::<LoadState, ErrorView>(
                bad_request(
                    about + " does not hold a JSON array of arrays of numbers (line "@ + decimal(
                        line as nat,
                    ) + ", column "@ + decimal(column as nat) + ")"@,
                ),
            )
            &&& after(
                config,
                field,
                requested,
                LoadState::Measuring(place),
                LoadEvent::Unreadable(reason),
            ) == Err::<LoadState, ErrorView>(bad_request(about + " cannot be read: "@ + reason@))
            &&& after(
                config,
                field,
                requested,
                LoadState::Reading(place),
                LoadEvent::Unreadable(reason),
            ) == Err::<LoadState, ErrorView>(bad_request(about + " cannot be read: "@ + reason@))
        }),
{
}

/// x is settled before y is looked at: what is wrong with x is answered
/// whatever y is, and what is wrong with y only once x is there. Whichever of
/// them is awaited is the one whose path was sent.
pub proof fn x_comes_before_y(
    config: ConfigView,
    x: Option<Vec<Vec<Number>>>,
    x_path: Option<RequestedPath>,
    y: Option<Vec<Vec<Number>>>,
    y_path: Option<RequestedPath>,
)
    ensures
        ({
            let begun = samples_begun(config, x, x_path, y, y_path);
            let x_source = source_of(config, "x"@, x, path_view(x_path));
            let y_source = source_of(config, "y"@, y, path_view(y_path));
            &&& x_source matches Err(error) ==> begun == Err::<SampleState, ErrorView>(error)
            &&& x_source is Ok && x is None ==> (begun matches Ok(
                SampleState::AwaitX { path, y: kept, y_path: kept_path },
            ) && Some(path) == x_path && kept == y && kept_path == y_path)
            &&& x_source is Ok && x is Some && y_source is Err ==> begun == Err::<
                SampleState,
                ErrorView,
            >(y_source->Err_0)
            &&& x_source is Ok && x is Some && y_source is Ok && y is None ==> (begun matches Ok(
                SampleState::AwaitY { x: kept, path },
            ) && Some(kept) == x && Some(path) == y_path)
            &&& x_source is Ok && x is Some && y_source is Ok && y is Some ==> (begun matches Ok(
                SampleState::Ready { x: kept, y: kept_y },
            ) && Some(kept) == x && Some(kept_y) == y)
        }),
{
}

/// Once x has come from its file, y is looked at as if x had been inline; once y
/// has come too, both are there as they came.
pub proof fn what_a_file_gave_is_what_was_sent(
    config: ConfigView,
    rows: Vec<Vec<Number>>,
    x: Vec<Vec<Number>>,
    x_path: RequestedPath,
    y: Option<Vec<Vec<Number>>>,
    y_path: Option<RequestedPath>,
)
    ensures
        samples_continued(config, SampleState::AwaitX { path: x_path, y, y_path }, rows)
            == samples_begun(config, Some(rows), None, y, y_path),
        samples_continued(config, SampleState::AwaitY { x, path: x_path }, rows) == Ok::<
            SampleState,
            ErrorView,
        >(SampleState::Ready { x, y: rows }),
{
}

} // verus!
