use std::path::{Path, PathBuf};

use fvr::files::path::{components, file_name, is_absolute, join, Component};
use fvr::files::{is_hidden, relativize};

/// Every text of up to `length` characters over the alphabet.
fn texts(alphabet: &str, length: usize) -> Vec<String> {
    let mut all = vec![String::new()];
    let mut last = vec![String::new()];
    for _ in 0..length {
        let mut next = Vec::new();
        for text in &last {
            for letter in alphabet.chars() {
                let mut longer = text.clone();
                longer.push(letter);
                next.push(longer);
            }
        }
        all.extend(next.iter().cloned());
        last = next;
    }
    all
}

fn expected(component: std::path::Component<'_>) -> Vec<u8> {
    component.as_os_str().to_str().unwrap().as_bytes().to_vec()
}

fn shown(component: &Component<'_>) -> Vec<u8> {
    match component {
        Component::RootDir => b"/".to_vec(),
        Component::CurDir => b".".to_vec(),
        Component::ParentDir => b"..".to_vec(),
        Component::Normal(name) => name.to_vec(),
    }
}

/// The way from `root` to `path` as the path type of the standard library finds it, component
/// by component.
fn way(root: &Path, path: &Path) -> Option<PathBuf> {
    if root.is_absolute() != path.is_absolute() {
        return if path.is_absolute() { Some(path.to_path_buf()) } else { None };
    }
    let mut from = root.components();
    let mut to = path.components();
    let mut out: Vec<std::path::Component<'_>> = Vec::new();
    loop {
        match (from.next(), to.next()) {
            (None, None) => break,
            (None, Some(next)) => {
                out.push(next);
                out.extend(to.by_ref());
                break;
            }
            (_, None) => out.push(std::path::Component::ParentDir),
            (Some(left), Some(right)) if out.is_empty() && left == right => {}
            (Some(std::path::Component::CurDir), Some(next)) => out.push(next),
            (Some(std::path::Component::ParentDir), Some(_)) => return None,
            (Some(_), Some(next)) => {
                out.push(std::path::Component::ParentDir);
                for _ in from.by_ref() {
                    out.push(std::path::Component::ParentDir);
                }
                out.push(next);
                out.extend(to.by_ref());
                break;
            }
        }
    }
    Some(out.iter().map(|component| component.as_os_str()).collect())
}

#[test]
fn components_agree_with_the_standard_library() {
    for text in texts("/.a", 7) {
        let path = Path::new(&text);
        let bytes = text.as_bytes();
        let ours: Vec<Vec<u8>> = components(bytes).iter().map(shown).collect();
        let theirs: Vec<Vec<u8>> = path.components().map(expected).collect();
        assert_eq!(ours, theirs, "{text:?}");
        assert_eq!(is_absolute(bytes), path.is_absolute());
        assert_eq!(file_name(bytes), path.file_name().map(|name| name.to_str().unwrap().as_bytes()));
        let joined: PathBuf = path.components().collect();
        assert_eq!(join(&components(bytes)), joined.to_str().unwrap().as_bytes());
        let hidden = path.file_name().is_some_and(|name| name.to_str().unwrap().starts_with('.'));
        assert_eq!(is_hidden(bytes), hidden);
    }
}

#[test]
fn relativize_agrees_with_the_standard_library() {
    let all = texts("/.ab", 4);
    for root in &all {
        for path in &all {
            let ours = relativize(root.as_bytes(), path.as_bytes());
            let theirs = way(Path::new(root), Path::new(path)).map(|way| way.into_os_string().into_encoded_bytes());
            assert_eq!(ours, theirs, "from {root:?} to {path:?}");
        }
    }
}
