use std::collections::BTreeMap;
use std::path::PathBuf;

use line_bridge::config::LineConfig;
use line_bridge::storage::{
    ConfigPath, CreateDir, FileOp, LineConfigError, ParseText, ReadFile, ReadOutcome, RemoveFile,
    RemoveOutcome, RenameTemp, Serialize, WriteTemp,
};

const DIR: [&str; 2] = [".config", "thclaws"];
const FILE: [&str; 3] = [".config", "thclaws", "line.json"];
const TEMP: [&str; 3] = [".config", "thclaws", "line.json.tmp"];

fn home() -> PathBuf {
    PathBuf::from("/home/u")
}

fn io_error(text: &str) -> std::io::Error {
    std::io::Error::new(std::io::ErrorKind::Other, text.to_string())
}

fn json_error() -> serde_json::Error {
    serde_json::from_str::<serde_json::Value>("{").unwrap_err()
}

fn assert_io(e: LineConfigError, below: &[&str], text: &str) {
    match e {
        LineConfigError::Io { path, source } => {
            assert_eq!(path.home, home());
            assert_eq!(path.components, below);
            assert_eq!(source.to_string(), text);
        }
        other => panic!("{:?}", other),
    }
}

fn assert_json(e: LineConfigError, below: &[&str]) {
    match e {
        LineConfigError::Json { path, source } => {
            assert_eq!(path.home, home());
            assert_eq!(path.components, below);
            assert_eq!(source.to_string(), json_error().to_string());
        }
        other => panic!("{:?}", other),
    }
}

#[test]
fn path_lies_below_home() {
    let ConfigPath { home: h, components } = LineConfig::path(Some(home())).unwrap();
    assert_eq!(h, home());
    assert_eq!(components, FILE);
}

#[test]
fn no_home_is_an_error() {
    assert!(matches!(LineConfig::path(None), Err(LineConfigError::NoHome)));
    assert!(matches!(LineConfig::load(None), Err(LineConfigError::NoHome)));
    assert!(matches!(LineConfig::delete(None), Err(LineConfigError::NoHome)));
    assert!(matches!(LineConfig::default().save(None), Err(LineConfigError::NoHome)));
}

fn binding() -> LineConfig {
    LineConfig { binding_token: "t".into(), language: Some("th".into()), ..Default::default() }
}

#[test]
fn save_goes_through_a_temporary_file() {
    let config = binding();
    let step: CreateDir = config.save(Some(home())).unwrap();
    assert_eq!(step.home(), &home());
    assert!(matches!(step.op(), FileOp::CreateDirAll { dir } if dir == DIR));
    let step: Serialize = step.done(Ok(())).unwrap();
    assert_eq!(step.binding().binding_token, "t");
    assert_eq!(step.binding().language.as_deref(), Some("th"));
    let step: WriteTemp = step.done(Ok("{}".to_string())).unwrap();
    assert_eq!(step.home(), &home());
    assert!(matches!(step.op(), FileOp::Write { file, body } if file == TEMP && body == "{}"));
    let step: RenameTemp = step.done(Ok(())).unwrap();
    assert_eq!(step.home(), &home());
    assert!(matches!(step.op(), FileOp::Rename { from, to } if from == TEMP && to == FILE));
    assert!(step.done(Ok(())).is_ok());
}

#[test]
fn failing_steps_name_their_path() {
    let config = binding();
    let create = || config.save(Some(home())).unwrap();
    let serialize = || create().done(Ok(())).unwrap();
    let write = || serialize().done(Ok(String::new())).unwrap();
    let rename = || write().done(Ok(())).unwrap();
    assert_io(create().done(Err(io_error("a"))).unwrap_err(), &DIR, "a");
    assert_json(serialize().done(Err(json_error())).unwrap_err(), &FILE);
    assert_io(write().done(Err(io_error("b"))).unwrap_err(), &TEMP, "b");
    assert_io(rename().done(Err(io_error("c"))).unwrap_err(), &FILE, "c");
}

#[test]
fn load_outcomes() {
    let read = || -> ReadFile { LineConfig::load(Some(home())).unwrap() };
    assert_eq!(read().home(), &home());
    assert!(matches!(read().op(), FileOp::Read { file } if file == FILE));
    let parse = || -> ParseText {
        read().done(ReadOutcome::Text("{}".to_string())).unwrap().unwrap()
    };
    assert_eq!(parse().text(), "{}");
    let loaded = parse().done(Ok(binding())).unwrap().unwrap();
    assert_eq!(loaded.binding_token, "t");
    assert_eq!(loaded.language.as_deref(), Some("th"));
    assert_json(parse().done(Err(json_error())).unwrap_err(), &FILE);
    assert!(read().done(ReadOutcome::Missing).unwrap().is_none());
    assert_io(read().done(ReadOutcome::Failed(io_error("d"))).unwrap_err(), &FILE, "d");
}

#[test]
fn delete_outcomes() {
    let remove = || -> RemoveFile { LineConfig::delete(Some(home())).unwrap() };
    assert_eq!(remove().home(), &home());
    assert!(matches!(remove().op(), FileOp::Remove { file } if file == FILE));
    assert!(remove().done(RemoveOutcome::Removed).is_ok());
    assert!(remove().done(RemoveOutcome::Missing).is_ok());
    assert_io(remove().done(RemoveOutcome::Failed(io_error("e"))).unwrap_err(), &FILE, "e");
}

/// Performs an operation on files that are kept in a map; `None` where a file is missing.
fn perform(files: &mut BTreeMap<Vec<String>, String>, op: FileOp) -> Option<String> {
    match op {
        FileOp::CreateDirAll { .. } => Some(String::new()),
        FileOp::Write { file, body } => {
            files.insert(file, body);
            Some(String::new())
        }
        FileOp::Rename { from, to } => {
            let body = files.remove(&from)?;
            files.insert(to, body);
            Some(String::new())
        }
        FileOp::Read { file } => files.get(&file).cloned(),
        FileOp::Remove { file } => files.remove(&file),
    }
}

fn read_from(files: &mut BTreeMap<Vec<String>, String>) -> Option<String> {
    let step = LineConfig::load(Some(home())).unwrap();
    let outcome = match perform(files, step.op()) {
        Some(text) => ReadOutcome::Text(text),
        None => ReadOutcome::Missing,
    };
    step.done(outcome).unwrap().map(|step| step.text().to_string())
}

#[test]
fn what_is_saved_is_read_until_it_is_deleted() {
    let mut files = BTreeMap::new();
    let file: Vec<String> = FILE.iter().map(|c| c.to_string()).collect();
    files.insert(file.clone(), "old".to_string());

    let config = binding();
    let step = config.save(Some(home())).unwrap();
    perform(&mut files, step.op()).unwrap();
    let step = step.done(Ok(())).unwrap();
    let body = step.binding().binding_token.clone();
    let step = step.done(Ok(body)).unwrap();
    perform(&mut files, step.op()).unwrap();
    // Up to the rename the old contents are found.
    assert_eq!(read_from(&mut files).as_deref(), Some("old"));
    let step = step.done(Ok(())).unwrap();
    perform(&mut files, step.op()).unwrap();
    step.done(Ok(())).unwrap();
    assert_eq!(read_from(&mut files).as_deref(), Some("t"));
    assert_eq!(files.len(), 1);

    for _ in 0..2 {
        let step = LineConfig::delete(Some(home())).unwrap();
        let outcome = match perform(&mut files, step.op()) {
            Some(_) => RemoveOutcome::Removed,
            None => RemoveOutcome::Missing,
        };
        assert!(step.done(outcome).is_ok());
        assert!(read_from(&mut files).is_none());
    }
}
