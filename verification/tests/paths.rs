use sulfite::local_path::{file_name, local_path_for_key, parent_directory};

#[test]
fn local_key_path_stays_under_local_directory() {
    assert_eq!(
        local_path_for_key("/tmp/base", "nested/object.txt").unwrap(),
        "/tmp/base/nested/object.txt"
    );
}

#[test]
fn local_key_path_rejects_escaping_paths() {
    assert!(local_path_for_key("/tmp/base", "").is_err());
    assert!(local_path_for_key("/tmp/base", "../object.txt").is_err());
    assert!(local_path_for_key("/tmp/base", "nested/../../object.txt").is_err());
    assert!(local_path_for_key("/tmp/base", "/tmp/object.txt").is_err());
}

#[test]
fn local_key_path_joins_like_std() {
    for dir in ["", ".", "a", "a/", "/", "/tmp/base/"] {
        for key in ["k", "k/", "./k", "a//b", "..k", "k..", ".../k", "ü/é"] {
            let joined = std::path::Path::new(dir).join(key);
            assert_eq!(local_path_for_key(dir, key).unwrap(), joined.to_str().unwrap());
        }
    }
}

#[test]
fn local_key_path_says_why_it_refuses() {
    assert_eq!(
        local_path_for_key("d", "").unwrap_err().message(),
        "CSV key must not be empty"
    );
    for key in ["..", "a/..", "../a", "a/../b", "/", "/a"] {
        assert_eq!(
            local_path_for_key("d", key).unwrap_err().message(),
            format!("CSV key is not a safe relative local path: {key}")
        );
    }
}

#[test]
fn file_names_are_those_of_std() {
    for path in [
        "", "/", "a", "a/", "a//", "a/b", "a/b/.", "a/.", ".", "./", "..", "a/..", "../a", "a/../b",
        "//", "/.", "ü/é.txt", "a/./.", "a.b/.c", "...", "a/...",
    ] {
        let name = std::path::Path::new(path).file_name().and_then(|name| name.to_str());
        assert_eq!(file_name(path).as_deref(), name, "{path}");
    }
}

#[test]
fn parents_are_those_of_std() {
    for path in [
        "", "/", "a", "a/", "a//", "a/b", "a/b/.", "a/.", ".", "./", "..", "a/..", "../a", "a/../b",
        "//", "/.", "ü/é.txt", "a/./.", "a.b/.c", "/a", "//a", "/a/b", "./a", "a/./b", "a//b//",
        "/./a", "a..", "a./b",
    ] {
        let parent = std::path::Path::new(path).parent().and_then(|parent| parent.to_str());
        assert_eq!(parent_directory(path).as_deref(), parent, "{path}");
    }
}
