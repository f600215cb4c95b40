//! Data from files, on a disk made up for the occasion.

use rust_nn_api::config::{Config, Location};
use rust_nn_api::dataset::{
    begin_samples, check_path, continue_samples, load_matrix, matrix_from_request, read_path,
    DataSource, LoadEvent, LoadState, PathPart, RequestedPath, SampleState,
};
use rust_nn_api::error::ApiError;
use rust_nn_api::number::Number;

fn place(path: &str) -> Location {
    Location { parts: path.split('/').filter(|part| !part.is_empty()).map(|part| part.as_bytes().to_vec()).collect() }
}

fn reading() -> Config {
    Config { data_dir: Some(place("/srv/data")), ..Config::default() }
}

fn path(text: &str) -> RequestedPath {
    read_path(String::from(text))
}

fn one() -> Vec<Vec<Number>> {
    vec![vec![Number { bits: 1.0_f64.to_bits() }]]
}

/// What the disk says about one path below the data directory.
struct Disk {
    found: Option<&'static str>,
    size: Result<u64, &'static str>,
    contents: Result<Vec<Vec<Number>>, (usize, usize)>,
    readable: bool,
}

fn disk() -> Disk {
    Disk { found: Some("/srv/data/x.json"), size: Ok(5), contents: Ok(one()), readable: true }
}

/// Loads a matrix, one step at a time.
fn load(config: &Config, requested: &str, disk: Disk) -> Result<Vec<Vec<Number>>, ApiError> {
    let mut state = LoadState::Locating;
    let mut contents = Some(disk.contents);
    loop {
        let event = match &state {
            LoadState::Locating => LoadEvent::Place(disk.found.map(place)),
            LoadState::Measuring(_) => match disk.size {
                Ok(size) => LoadEvent::Size(size),
                Err(reason) => LoadEvent::Unreadable(String::from(reason)),
            },
            LoadState::Reading(at) => {
                assert!(at.parts.starts_with(&place("/srv/data").parts), "read outside");
                if !disk.readable {
                    LoadEvent::Unreadable(String::from("permission denied"))
                } else {
                    match contents.take().unwrap() {
                        Ok(rows) => LoadEvent::Rows(rows),
                        Err((line, column)) => LoadEvent::NotAMatrix { line, column },
                    }
                }
            }
            LoadState::Loaded(rows) => return Ok(rows.clone()),
        };
        state = load_matrix(config, "x", &path(requested), state, event)?;
    }
}

fn message(result: Result<Vec<Vec<Number>>, ApiError>) -> String {
    let error = result.unwrap_err();
    assert_eq!((error.status(), error.code()), (400, "invalid_request"));
    String::from(error.message())
}

#[test]
fn training_data_can_come_from_files() {
    assert_eq!(load(&reading(), "x.json", disk()).unwrap(), one());
    // A file further down is fine; only leaving the directory is not.
    let deeper = Disk { found: Some("/srv/data/sets/x.json"), ..disk() };
    assert_eq!(load(&reading(), "sets/x.json", deeper).unwrap(), one());
}

#[test]
fn a_path_cannot_leave_the_data_directory() {
    for attempt in ["../outside.json", "../../etc/passwd", "/etc/passwd", "sets/../../etc/passwd", "..", "a/.."] {
        let error = check_path(&reading(), "x", &path(attempt)).expect_err(attempt);
        assert_eq!((error.status(), error.code()), (400, "invalid_request"), "{attempt}");
    }
    assert_eq!(
        check_path(&reading(), "x", &path("/etc/passwd")).unwrap_err().message(),
        "'x_path' must be relative to the server's data directory, not an absolute path"
    );
    assert_eq!(
        check_path(&reading(), "y", &path("../x")).unwrap_err().message(),
        "'y_path' may only name a file below the server's data directory"
    );

    // A symbolic link is what comparing the resolved path defends against.
    for outside in ["/etc/passwd", "/srv", "/srv/data2/x.json", "/srv/dat"] {
        let link = Disk { found: Some(outside), ..disk() };
        assert_eq!(
            message(load(&reading(), "link.json", link)),
            "'x_path': 'link.json' leads outside the server's data directory"
        );
    }
}

#[test]
fn names_that_only_look_like_the_way_up_are_fine() {
    for fine in ["..x", "x..", "a..b/c", ".hidden", "...", "a//b", "a/./b", "a/"] {
        assert!(check_path(&reading(), "x", &path(fine)).is_ok(), "{fine}");
    }
    for refused in [".", "./x.json", "a/../b"] {
        assert!(check_path(&reading(), "x", &path(refused)).is_err(), "{refused}");
    }
}

#[test]
fn reading_files_is_off_until_a_data_directory_is_set() {
    let error = check_path(&Config::default(), "x", &path("x.json")).unwrap_err();
    assert_eq!(error.status(), 400);
    assert_eq!(
        error.message(),
        "'x_path' needs the server to have been started with NN_API_DATA_DIR set; send 'x' inline instead"
    );
    assert!(message(load(&Config::default(), "x.json", disk())).contains("NN_API_DATA_DIR"));
}

#[test]
fn x_must_arrive_exactly_one_way() {
    let sent = || Some(String::from("x.json"));
    let refused = |inline, path| {
        String::from(matrix_from_request(&reading(), "x", inline, path).unwrap_err().message())
    };

    assert!(refused(Some(one()), sent()).contains("not both"));
    assert!(refused(None, None).contains("missing"));
    assert!(refused(None, Some(String::from("/x"))).contains("absolute"));
    match matrix_from_request(&reading(), "x", Some(one()), None).unwrap() {
        DataSource::Inline(rows) => assert_eq!(rows, one()),
        DataSource::File(_) => panic!("the data was inline"),
    }
    match matrix_from_request(&reading(), "x", None, sent()).unwrap() {
        DataSource::File(path) => assert_eq!(path.text, "x.json"),
        DataSource::Inline(_) => panic!("the data is in a file"),
    }

    let nowhere = Disk { found: None, ..disk() };
    assert_eq!(
        message(load(&reading(), "nope.json", nowhere)),
        "'x_path': there is no file 'nope.json' in the server's data directory"
    );
    let other = Disk { contents: Err((1, 14)), ..disk() };
    assert_eq!(
        message(load(&reading(), "x.json", other)),
        "'x_path': 'x.json' does not hold a JSON array of arrays of numbers (line 1, column 14)"
    );
}

#[test]
fn a_file_is_measured_before_it_is_read() {
    let limit = reading().max_file_bytes;
    let big = Disk { size: Ok(limit + 1), readable: false, ..disk() };
    assert_eq!(
        message(load(&reading(), "x.json", big)),
        "'x_path': 'x.json' is 268435457 bytes, the limit is 268435456"
    );
    assert!(load(&reading(), "x.json", Disk { size: Ok(limit), ..disk() }).is_ok());

    let gone = Disk { size: Err("gone"), ..disk() };
    assert_eq!(message(load(&reading(), "x.json", gone)), "'x_path': 'x.json' cannot be read: gone");
    let locked = Disk { readable: false, ..disk() };
    assert_eq!(
        message(load(&reading(), "x.json", locked)),
        "'x_path': 'x.json' cannot be read: permission denied"
    );
}

#[test]
fn x_is_settled_before_y_is_looked_at() {
    let two = || vec![vec![Number { bits: 2.0_f64.to_bits() }]];
    let path = |name: &str| Some(path(name));
    let config = reading();
    let ready = |state: SampleState| match state {
        SampleState::Ready { x, y } => (x, y),
        other => panic!("this is still waiting: {other:?}"),
    };

    let both = begin_samples(&config, Some(one()), None, Some(two()), None).unwrap();
    assert_eq!(ready(both), (one(), two()));

    // Both in files: x first, then y.
    let first = begin_samples(&config, None, path("x.json"), None, path("y.json")).unwrap();
    assert!(matches!(&first, SampleState::AwaitX { path, .. } if path.text == "x.json"));
    let second = continue_samples(&config, first, one()).unwrap();
    assert!(matches!(&second, SampleState::AwaitY { path, .. } if path.text == "y.json"));
    assert_eq!(ready(continue_samples(&config, second, two()).unwrap()), (one(), two()));

    // And the two ways of sending data may be mixed.
    let mixed = begin_samples(&config, None, path("x.json"), Some(two()), None).unwrap();
    assert_eq!(ready(continue_samples(&config, mixed, one()).unwrap()), (one(), two()));

    // What is wrong with x comes before what is wrong with y.
    let error = begin_samples(&config, None, None, None, None).unwrap_err();
    assert!(error.message().contains("'x' is missing"), "{}", error.message());
    let waiting = begin_samples(&config, None, path("x.json"), None, None).unwrap();
    let error = continue_samples(&config, waiting, one()).unwrap_err();
    assert!(error.message().contains("'y' is missing"), "{}", error.message());
}

#[test]
fn paths_are_read_by_the_rules_of_the_system() {
    assert_eq!(path("sets/x.json").parts, vec![PathPart::Name, PathPart::Name]);
    assert_eq!(path("./a/../b").parts, vec![PathPart::Current, PathPart::Name, PathPart::Parent, PathPart::Name]);
    assert_eq!(path("/a").parts, vec![PathPart::Root, PathPart::Name]);
    assert!(path("").parts.is_empty());

    // A reading that says otherwise is what counts, whatever the text is.
    let drive = RequestedPath {
        text: String::from("C:\\x"),
        absolute: true,
        parts: vec![PathPart::Prefix, PathPart::Root, PathPart::Name],
    };
    assert!(check_path(&reading(), "x", &drive).unwrap_err().message().contains("absolute"));
    let up = RequestedPath {
        text: String::from("a\\..\\b.json"),
        absolute: false,
        parts: vec![PathPart::Name, PathPart::Parent, PathPart::Name],
    };
    assert!(check_path(&reading(), "x", &up).unwrap_err().message().contains("may only name"));
}
