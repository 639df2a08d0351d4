use aci_boundary::boundary::identifiers::ManifestId;
use aci_boundary::boundary::manifest::{Environment, PathScope, ScopeManifest, ToolCapability};
use aci_boundary::boundary::types::IsolatedPath;

fn path(raw: &str) -> IsolatedPath {
    IsolatedPath::try_from(raw.to_string()).unwrap()
}

fn manifest(
    id: &str,
    environment: Environment,
    caps: Vec<ToolCapability>,
    read: Vec<PathScope>,
    write: Vec<PathScope>,
    budget: u32,
) -> ScopeManifest {
    ScopeManifest {
        manifest_id: ManifestId::try_from(id.to_string()).unwrap(),
        environment,
        allowed_capabilities: caps,
        read_scopes: read,
        write_scopes: write,
        step_budget: budget,
    }
}

#[test]
fn wire_names() {
    assert_eq!(ToolCapability::ReadFile.wire_name(), "read_file");
    assert_eq!(ToolCapability::WriteFile.wire_name(), "write_file");
    assert_eq!(ToolCapability::ExecuteCargoTests.wire_name(), "execute_cargo_tests");
    assert_eq!(Environment::Development.wire_name(), "development");
    assert_eq!(Environment::Staging.wire_name(), "staging");
    assert_eq!(Environment::Production.wire_name(), "production");
}

#[test]
fn exact_scope_covers_only_its_file() {
    let scope = PathScope::ExactFile(path("src/main.rs"));
    assert!(scope.authorizes(&path("src/main.rs")));
    assert!(scope.authorizes(&path("./src//main.rs")));
    assert!(!scope.authorizes(&path("src")));
    assert!(!scope.authorizes(&path("src/main.rs/x")));
}

#[test]
fn tree_scope_covers_strictly_below() {
    let scope = PathScope::DirectoryTree(path("src"));
    assert!(!scope.authorizes(&path("src")));
    assert!(scope.authorizes(&path("src/lib.rs")));
    assert!(scope.authorizes(&path("src/a/b/c.rs")));
    assert!(!scope.authorizes(&path("srcx/lib.rs")));
    assert!(!scope.authorizes(&path("other/src/lib.rs")));
}

#[test]
fn canonical_form_and_digest() {
    let m = manifest(
        "manifest-1",
        Environment::Production,
        vec![ToolCapability::WriteFile, ToolCapability::ReadFile, ToolCapability::WriteFile],
        vec![
            PathScope::DirectoryTree(path("src")),
            PathScope::ExactFile(path("README.md")),
            PathScope::ExactFile(path("./README.md")),
        ],
        vec![PathScope::ExactFile(path("src/lib.rs"))],
        10,
    );
    assert_eq!(
        m.canonical_json(),
        r#"{"manifest_id":"manifest-1","environment":"production","allowed_capabilities":["read_file","write_file"],"read_scopes":[{"ExactFile":{"components":["README.md"]}},{"DirectoryTree":{"components":["src"]}}],"write_scopes":[{"ExactFile":{"components":["src","lib.rs"]}}],"step_budget":10}"#
    );
    assert_eq!(
        m.compute_canonical_hash().unwrap().as_str(),
        "92373087a8b43a8b78b31633d43fbd4ef4f127c9fa6cd11cfbe4307224d81584"
    );
}

#[test]
fn canonical_form_sorts_scopes_by_bytes_and_escapes_text() {
    let m = manifest(
        "m2",
        Environment::Development,
        vec![],
        vec![
            PathScope::ExactFile(path("b")),
            PathScope::ExactFile(path("a/z")),
            PathScope::DirectoryTree(path("a")),
            PathScope::ExactFile(path("a")),
            PathScope::ExactFile(path("B")),
        ],
        vec![PathScope::ExactFile(path("we\"ird\\na\tme\u{1}é"))],
        0,
    );
    assert_eq!(
        m.canonical_json(),
        "{\"manifest_id\":\"m2\",\"environment\":\"development\",\"allowed_capabilities\":[],\"read_scopes\":[{\"ExactFile\":{\"components\":[\"B\"]}},{\"ExactFile\":{\"components\":[\"a\"]}},{\"ExactFile\":{\"components\":[\"a\",\"z\"]}},{\"ExactFile\":{\"components\":[\"b\"]}},{\"DirectoryTree\":{\"components\":[\"a\"]}}],\"write_scopes\":[{\"ExactFile\":{\"components\":[\"we\\\"ird\\\\na\\tme\\u0001é\"]}}],\"step_budget\":0}"
    );
    assert_eq!(
        m.compute_canonical_hash().unwrap().as_str(),
        "6c3cb824ace5d695bcf8f5057b7872ab3b59aeecb94b2502e05a19b2ec1783d6"
    );
}

#[test]
fn digest_ignores_list_order_and_repeats() {
    let a = manifest(
        "m3",
        Environment::Staging,
        vec![ToolCapability::ExecuteCargoTests],
        vec![],
        vec![],
        u32::MAX,
    );
    assert_eq!(
        a.compute_canonical_hash().unwrap().as_str(),
        "58da1d560fd0bbf6c9ebed45caa7431043ba4e369f052c7fd166690383126427"
    );
    let b = manifest(
        "m3",
        Environment::Staging,
        vec![ToolCapability::ExecuteCargoTests, ToolCapability::ExecuteCargoTests],
        vec![],
        vec![],
        u32::MAX,
    );
    assert_eq!(
        a.compute_canonical_hash().unwrap().as_str(),
        b.compute_canonical_hash().unwrap().as_str()
    );
    let c = manifest(
        "m",
        Environment::Production,
        vec![ToolCapability::ReadFile, ToolCapability::ExecuteCargoTests, ToolCapability::WriteFile],
        vec![PathScope::ExactFile(path("x")), PathScope::DirectoryTree(path("y"))],
        vec![],
        1,
    );
    let d = manifest(
        "m",
        Environment::Production,
        vec![ToolCapability::WriteFile, ToolCapability::ReadFile, ToolCapability::ExecuteCargoTests],
        vec![PathScope::DirectoryTree(path("y")), PathScope::ExactFile(path("x")), PathScope::ExactFile(path("x"))],
        vec![],
        1,
    );
    assert!(c.canonical_json().contains("[\"execute_cargo_tests\",\"read_file\",\"write_file\"]"));
    assert_eq!(c.canonical_json(), d.canonical_json());
    assert_eq!(
        c.compute_canonical_hash().unwrap().as_str(),
        d.compute_canonical_hash().unwrap().as_str()
    );
}

#[test]
fn manifests_that_differ_have_different_digests() {
    let base = || {
        manifest(
            "m1",
            Environment::Production,
            vec![ToolCapability::ReadFile],
            vec![PathScope::DirectoryTree(path("src"))],
            vec![],
            3,
        )
    };
    let digest = |m: &ScopeManifest| m.compute_canonical_hash().unwrap().as_str().to_string();
    let d0 = digest(&base());
    let mut m = base();
    m.step_budget = 4;
    assert_ne!(digest(&m), d0);
    let mut m = base();
    m.environment = Environment::Staging;
    assert_ne!(digest(&m), d0);
    let mut m = base();
    m.read_scopes = vec![PathScope::ExactFile(path("src"))];
    assert_ne!(digest(&m), d0);
    let mut m = base();
    m.write_scopes = vec![PathScope::DirectoryTree(path("src"))];
    assert_ne!(digest(&m), d0);
    let mut m = base();
    m.allowed_capabilities.push(ToolCapability::WriteFile);
    assert_ne!(digest(&m), d0);
    assert_eq!(digest(&base()), d0);
}
