use codex_review_auth::scopes::normalize_scopes;
use codex_review_auth::well_known::{
    authorization_server_discovery_paths, protected_resource_metadata_paths,
};

fn strings(list: &[&str]) -> Vec<String> {
    list.iter().map(|s| s.to_string()).collect()
}

#[test]
fn protected_resource_metadata_paths_try_endpoint_path_before_root() {
    assert_eq!(
        protected_resource_metadata_paths("/public/mcp"),
        vec![
            "/.well-known/oauth-protected-resource/public/mcp".to_string(),
            "/.well-known/oauth-protected-resource".to_string(),
        ]
    );
}

#[test]
fn authorization_server_paths_try_three_places() {
    assert_eq!(
        authorization_server_discovery_paths("/public/mcp"),
        strings(&[
            "/.well-known/oauth-authorization-server/public/mcp",
            "/public/mcp/.well-known/oauth-authorization-server",
            "/.well-known/oauth-authorization-server",
        ])
    );
}

#[test]
fn outer_slashes_of_the_base_path_do_not_matter() {
    for base_path in ["mcp", "/mcp", "mcp/", "//mcp///"] {
        assert_eq!(
            authorization_server_discovery_paths(base_path),
            authorization_server_discovery_paths("/mcp")
        );
        assert_eq!(
            protected_resource_metadata_paths(base_path),
            protected_resource_metadata_paths("/mcp")
        );
    }
}

#[test]
fn a_base_path_of_slashes_leaves_the_root() {
    for base_path in ["", "/", "///"] {
        assert_eq!(
            authorization_server_discovery_paths(base_path),
            strings(&["/.well-known/oauth-authorization-server"])
        );
        assert_eq!(
            protected_resource_metadata_paths(base_path),
            strings(&["/.well-known/oauth-protected-resource"])
        );
    }
}

#[test]
fn no_authorization_server_path_is_tried_twice() {
    assert_eq!(
        authorization_server_discovery_paths("/.well-known/oauth-authorization-server"),
        strings(&[
            "/.well-known/oauth-authorization-server/.well-known/oauth-authorization-server",
            "/.well-known/oauth-authorization-server",
        ])
    );
}

#[test]
fn scopes_are_trimmed_and_kept_where_they_first_occur() {
    assert_eq!(
        normalize_scopes(Some(strings(&["b", " a", "", "b ", "\t", "a", "c"]))),
        Some(strings(&["b", "a", "c"]))
    );
}

#[test]
fn normalizing_twice_is_normalizing_once() {
    let once = normalize_scopes(Some(strings(&[" x ", "y y", "x"])));
    assert_eq!(once, Some(strings(&["x", "y y"])));
    assert_eq!(normalize_scopes(once.clone()), once);
}

#[test]
fn no_scopes_are_left_of_none_or_of_blank_ones() {
    assert_eq!(normalize_scopes(None), None);
    assert_eq!(normalize_scopes(Some(Vec::new())), None);
    assert_eq!(normalize_scopes(Some(strings(&["", " \n "]))), None);
}

#[test]
fn scopes_are_trimmed_of_all_white_space_and_of_nothing_else() {
    for c in '\0'..=char::MAX {
        let padded = format!("{c}scope{c}");
        assert_eq!(
            normalize_scopes(Some(vec![padded.clone()])),
            Some(vec![padded.trim().to_string()])
        );
    }
}
