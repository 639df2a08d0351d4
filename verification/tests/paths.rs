use aci_boundary::boundary::errors::BoundaryError;
use aci_boundary::boundary::types::{FileContent, IsolatedPath, TestSuiteName};

fn comps(p: &IsolatedPath) -> Vec<String> {
    p.to_canonical_components()
}

#[test]
fn isolated_path_normalizes() {
    let p = IsolatedPath::try_from("a/b/c".to_string()).unwrap();
    assert_eq!(comps(&p), vec!["a", "b", "c"]);
    assert_eq!(p.as_path(), "a/b/c");
    let p = IsolatedPath::try_from("./a//b/./".to_string()).unwrap();
    assert_eq!(comps(&p), vec!["a", "b"]);
    assert_eq!(p.as_path(), "a/b");
    let p = IsolatedPath::try_from("...".to_string()).unwrap();
    assert_eq!(comps(&p), vec!["..."]);
    let p = IsolatedPath::try_from("dossier/été.txt".to_string()).unwrap();
    assert_eq!(comps(&p), vec!["dossier", "été.txt"]);
    assert_eq!(p.component_count(), 2);
}

#[test]
fn isolated_path_refuses_escapes() {
    for raw in ["", "/etc/passwd", "a/../b", "..", "../x", ".", "./", "a/..", "//"] {
        assert_eq!(
            IsolatedPath::try_from(raw.to_string()),
            Err(BoundaryError::InvalidPathSpecification),
            "{raw:?}"
        );
    }
    assert_eq!(
        IsolatedPath::try_from("a\0b".to_string()),
        Err(BoundaryError::InvalidPathSpecification)
    );
}

#[test]
fn isolated_path_length_limit_counts_bytes() {
    assert!(IsolatedPath::try_from("a".repeat(4096)).is_ok());
    assert_eq!(
        IsolatedPath::try_from("a".repeat(4097)),
        Err(BoundaryError::PayloadLimitExceeded(4097, 4096))
    );
    // 2049 two-byte characters: 4098 bytes.
    assert_eq!(
        IsolatedPath::try_from("é".repeat(2049)),
        Err(BoundaryError::PayloadLimitExceeded(4098, 4096))
    );
    // The NUL check comes before the length check.
    let mut long = "a".repeat(5000);
    long.push('\0');
    assert_eq!(IsolatedPath::try_from(long), Err(BoundaryError::InvalidPathSpecification));
    // An absolute path over the limit is refused for its length first.
    assert_eq!(
        IsolatedPath::try_from(format!("/{}", "a".repeat(4096))),
        Err(BoundaryError::PayloadLimitExceeded(4097, 4096))
    );
}

#[test]
fn isolated_path_text_reads_back_as_itself() {
    for raw in ["a", "x/./y//z/", "./deep/er/path.rs"] {
        let p = IsolatedPath::try_from(raw.to_string()).unwrap();
        let q = IsolatedPath::try_from(p.as_path().to_string()).unwrap();
        assert!(p.same_as(&q));
        assert_eq!(comps(&p), comps(&q));
    }
}

#[test]
fn isolated_path_prefix_and_equality() {
    let a = IsolatedPath::try_from("src".to_string()).unwrap();
    let b = IsolatedPath::try_from("src/lib.rs".to_string()).unwrap();
    let c = IsolatedPath::try_from("srcx/lib.rs".to_string()).unwrap();
    assert!(a.is_prefix_of(&b));
    assert!(a.is_prefix_of(&a));
    assert!(!a.is_prefix_of(&c));
    assert!(!b.is_prefix_of(&a));
    assert!(a.same_as(&a.clone()));
    assert!(!a.same_as(&b));
}

#[test]
fn file_content_screening() {
    assert_eq!(FileContent::try_from("hello".to_string()).unwrap().into_inner(), "hello");
    assert_eq!(
        FileContent::try_from("bad\0byte".to_string()),
        Err(BoundaryError::NullByteDetected)
    );
    assert!(FileContent::try_from("x".repeat(2097152)).is_ok());
    assert_eq!(
        FileContent::try_from("x".repeat(2097153)),
        Err(BoundaryError::PayloadLimitExceeded(2097153, 2097152))
    );
    let c = FileContent::try_from("same".to_string()).unwrap();
    assert_eq!(c.clone(), c);
    assert_eq!(c.as_str(), "same");
}

#[test]
fn test_suite_names() {
    assert_eq!(TestSuiteName::try_from("integration_1".to_string()).unwrap().as_str(), "integration_1");
    assert!(TestSuiteName::try_from("a-b".to_string()).is_ok());
    for raw in ["", "-flag", "two words", "semi;colon", "é"] {
        assert_eq!(
            TestSuiteName::try_from(raw.to_string()),
            Err(BoundaryError::InvalidTestSuiteName),
            "{raw:?}"
        );
    }
    assert!(TestSuiteName::try_from("a".repeat(128)).is_ok());
    assert_eq!(TestSuiteName::try_from("a".repeat(129)), Err(BoundaryError::InvalidTestSuiteName));
}

#[test]
fn normalizing_twice_is_normalizing_once() {
    let long = format!("{}/{}", "./".repeat(1000), "a".repeat(2000));
    assert!(long.len() <= 4096);
    for raw in ["./a//b/./c/", "x", long.as_str()] {
        let p = IsolatedPath::try_from(raw.to_string()).unwrap();
        assert!(p.as_path().len() <= raw.len());
        let q = IsolatedPath::try_from(p.as_path().to_string()).unwrap();
        assert_eq!(comps(&p), comps(&q));
    }
}
