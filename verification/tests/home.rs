use codex_acp::home::{
    canonicalize_memory_config, memory_home_lock_request, HomePath, MemoryHomes, LOCK_FILE_NAME,
};
use codex_acp::home_mutexes::{HomeMutexes, MutexSlot};

fn path(text: &str) -> HomePath {
    let mut components = vec![b"/".to_vec()];
    for name in text.split('/').filter(|name| !name.is_empty()) {
        components.push(name.as_bytes().to_vec());
    }
    HomePath { components }
}

fn homes(codex_home: &str, sqlite_home: &str) -> MemoryHomes {
    MemoryHomes { codex_home: path(codex_home), sqlite_home: path(sqlite_home) }
}

#[test]
fn database_in_the_home_moves_along() {
    let resolved = canonicalize_memory_config(&homes("/link", "/link"), &path("/real/home"));
    assert_eq!(resolved, homes("/real/home", "/real/home"));
    let resolved = canonicalize_memory_config(&homes("/link", "/link/db/1"), &path("/real/home"));
    assert_eq!(resolved, homes("/real/home", "/real/home/db/1"));
}

#[test]
fn database_elsewhere_stays() {
    for elsewhere in ["/srv/db", "/link2/db", "/", "/lin"] {
        let resolved = canonicalize_memory_config(&homes("/link", elsewhere), &path("/real"));
        assert_eq!(resolved, homes("/real", elsewhere));
    }
}

#[test]
fn resolving_again_changes_nothing() {
    let once = canonicalize_memory_config(&homes("/link", "/link/db"), &path("/real"));
    let twice = canonicalize_memory_config(&once, &path("/real"));
    assert_eq!(twice, once);
}

#[test]
fn prefixes_are_whole_components() {
    assert!(path("/a/b/c").starts_with(&path("/a/b")));
    assert!(path("/a/b").starts_with(&path("/a/b")));
    assert!(!path("/a/bc").starts_with(&path("/a/b")));
    assert!(!path("/a").starts_with(&path("/a/b")));
    assert_eq!(
        path("/a/b/c").strip_prefix(&path("/a")),
        Some(HomePath { components: vec![b"b".to_vec(), b"c".to_vec()] })
    );
    assert_eq!(path("/a/b").strip_prefix(&path("/b")), None);
    assert!(path("/a/b").same_path(&path("/a/b")));
    assert!(!path("/a/b").same_path(&path("/a")));
    assert_eq!(path("/a/b").copied(), path("/a/b"));
}

#[test]
fn joining_gives_back_what_was_stripped() {
    let relative = path("/a/b/c").strip_prefix(&path("/a")).unwrap();
    assert_eq!(path("/a").join(&relative), path("/a/b/c"));
    assert_eq!(path("/x").join(&relative), path("/x/b/c"));
}

#[test]
fn lock_file_lies_in_the_home_and_outside_the_memory_directories() {
    let request = memory_home_lock_request(&path("/home/agent"));
    assert_eq!(LOCK_FILE_NAME, ".memory-worker.lock");
    assert_eq!(request.path, path("/home/agent/.memory-worker.lock"));
    assert!(request.read && request.write && request.create);
    assert_eq!(request.unix_mode, 0o600);
    assert!(request.path.starts_with(&path("/home/agent")));
    assert!(!request.path.starts_with(&path("/home/agent/memories")));
    assert!(!request.path.starts_with(&path("/home/agent/memories_extensions")));
}

#[test]
fn same_home_gets_the_same_mutex_while_it_is_held() {
    let mut mutexes = HomeMutexes::new();
    let first = mutexes.process_mutex_for_home(&[], &path("/a"));
    assert_eq!(first, MutexSlot { index: 0, fresh: true });
    let second = mutexes.process_mutex_for_home(&[true], &path("/a"));
    assert_eq!(second, MutexSlot { index: 0, fresh: false });
    assert_eq!(mutexes.len(), 1);
}

#[test]
fn different_homes_get_different_mutexes() {
    let mut mutexes = HomeMutexes::new();
    mutexes.process_mutex_for_home(&[], &path("/a"));
    let other = mutexes.process_mutex_for_home(&[true], &path("/b"));
    assert_eq!(other, MutexSlot { index: 1, fresh: true });
    let again = mutexes.process_mutex_for_home(&[true, true], &path("/a"));
    assert_eq!(again, MutexSlot { index: 0, fresh: false });
}

#[test]
fn slots_of_unused_homes_are_used_again() {
    let mut mutexes = HomeMutexes::new();
    mutexes.process_mutex_for_home(&[], &path("/a"));
    mutexes.process_mutex_for_home(&[true], &path("/b"));
    let reused = mutexes.process_mutex_for_home(&[false, true], &path("/c"));
    assert_eq!(reused, MutexSlot { index: 0, fresh: true });
    let gone = mutexes.process_mutex_for_home(&[false, false], &path("/b"));
    assert_eq!(gone, MutexSlot { index: 0, fresh: true });
    assert_eq!(mutexes.len(), 2);
}
