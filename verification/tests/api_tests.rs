use pulsevision::api::{
    capped_limit, collectives_response, content_preview, default_limit, experience_not_found,
    experience_type_name, health_response, plan_projection, stats_response, type_distribution,
    ProjectionPlan, DEFAULT_LIMIT, MAX_LIMIT,
};
use pulsevision::error::Error;
use pulsevision::serve::{index_file_path, listen_address, session_db_path};

#[test]
fn default_limit_is_one_hundred() {
    assert_eq!(default_limit(), 100);
    assert_eq!(DEFAULT_LIMIT, 100);
}

#[test]
fn capped_limit_keeps_small_requests() {
    assert_eq!(capped_limit(5), 5);
    assert_eq!(capped_limit(1), 1);
    assert_eq!(capped_limit(1000), 1000);
}

#[test]
fn capped_limit_raises_zero_to_one() {
    assert_eq!(capped_limit(0), 1);
}

#[test]
fn capped_limit_caps_large_requests() {
    assert_eq!(capped_limit(1001), 1000);
    assert_eq!(capped_limit(usize::MAX), MAX_LIMIT);
}

#[test]
fn content_preview_keeps_short_content() {
    assert_eq!(content_preview("Discovered a pattern"), "Discovered a pattern");
    assert_eq!(content_preview(""), "");
}

#[test]
fn content_preview_takes_first_200_chars() {
    let long: String = "a".repeat(250);
    let preview = content_preview(&long);
    assert_eq!(preview.chars().count(), 200);
    assert_eq!(preview, "a".repeat(200));
}

#[test]
fn content_preview_counts_characters_not_bytes() {
    let long: String = "é".repeat(201);
    let preview = content_preview(&long);
    assert_eq!(preview.chars().count(), 200);
    assert_eq!(preview, "é".repeat(200));
}

#[test]
fn collectives_response_formats_ids() {
    let collectives = vec![
        (0xa1a2a3a4b1b2c1c2d1d2d3d4d5d6d7d8u128, "test-project".to_string()),
        (0u128, "other".to_string()),
    ];
    let response = collectives_response(&collectives);
    assert_eq!(response.collectives.len(), 2);
    assert_eq!(response.collectives[0].id, "a1a2a3a4-b1b2-c1c2-d1d2-d3d4d5d6d7d8");
    assert_eq!(response.collectives[0].name, "test-project");
    assert_eq!(response.collectives[1].id, "00000000-0000-0000-0000-000000000000");
    assert_eq!(response.collectives[1].name, "other");
}

#[test]
fn collectives_response_of_none_is_empty() {
    let response = collectives_response(&Vec::new());
    assert!(response.collectives.is_empty());
}

#[test]
fn stats_response_copies_counts() {
    let types = vec!["Solution".to_string(), "Fact".to_string(), "Solution".to_string()];
    let stats = stats_response(10, 1, 0, 384, &types);
    assert_eq!(stats.experience_count, 10);
    assert_eq!(stats.relation_count, 1);
    assert_eq!(stats.insight_count, 0);
    assert_eq!(stats.embedding_dimension, 384);
    assert_eq!(stats.type_distribution.len(), 2);
}

#[test]
fn type_distribution_counts_each_type_once() {
    let types: Vec<String> = ["TechInsight", "Solution", "TechInsight", "Fact", "TechInsight"]
        .iter()
        .map(|s| s.to_string())
        .collect();
    let dist = type_distribution(&types);
    let pairs: Vec<(String, usize)> = dist.into_iter().map(|t| (t.experience_type, t.count)).collect();
    assert_eq!(
        pairs,
        vec![("TechInsight".to_string(), 3), ("Solution".to_string(), 1), ("Fact".to_string(), 1)]
    );
}

#[test]
fn type_distribution_keeps_first_appearance_order() {
    let types: Vec<String> = ["Fact", "Solution", "Solution", "Generic", "Fact"].iter().map(|s| s.to_string()).collect();
    let names: Vec<String> = type_distribution(&types).into_iter().map(|t| t.experience_type).collect();
    assert_eq!(names, vec!["Fact".to_string(), "Solution".to_string(), "Generic".to_string()]);
}

#[test]
fn type_distribution_of_nothing_is_empty() {
    assert!(type_distribution(&Vec::new()).is_empty());
}

#[test]
fn experience_type_name_takes_variant() {
    assert_eq!(
        experience_type_name("TechInsight { technology: \"tokio\", insight: \"x\" }"),
        "TechInsight"
    );
    assert_eq!(experience_type_name("Generic { category: Some(\"testing\") }"), "Generic");
    assert_eq!(experience_type_name("Fact"), "Fact");
    assert_eq!(experience_type_name("Wrapped(3)"), "Wrapped");
    assert_eq!(experience_type_name(""), "");
}

#[test]
fn experience_not_found_is_404() {
    let e = experience_not_found(0);
    assert_eq!(e.status_code(), 404);
    match &e {
        Error::NotFound(msg) => assert_eq!(
            msg,
            "Experience 00000000-0000-0000-0000-000000000000 not found"
        ),
        _ => panic!("expected NotFound"),
    }
    assert_eq!(
        e.message(),
        "not found: Experience 00000000-0000-0000-0000-000000000000 not found"
    );
}

#[test]
fn plan_projection_of_no_points_is_nothing() {
    assert!(matches!(plan_projection(0, 0), Ok(ProjectionPlan::Nothing)));
    assert!(matches!(plan_projection(0, 384), Ok(ProjectionPlan::Nothing)));
}

#[test]
fn plan_projection_rejects_low_dimension() {
    match plan_projection(1, 2) {
        Err(Error::Projection(msg)) => {
            assert_eq!(msg, "Embedding dimension 2 is less than 3, cannot project to 3D")
        }
        _ => panic!("expected a projection error"),
    }
    assert!(matches!(plan_projection(5, 0), Err(Error::Projection(_))));
}

#[test]
fn plan_projection_accepts_three_or_more_dimensions() {
    assert!(matches!(plan_projection(1, 3), Ok(ProjectionPlan::Project)));
    assert!(matches!(plan_projection(20, 384), Ok(ProjectionPlan::Project)));
    assert!(matches!(plan_projection(10, 768), Ok(ProjectionPlan::Project)));
}

#[test]
fn health_response_read_only() {
    let h = health_response(true, "connected".to_string(), 2, 75, "0.1.0".to_string());
    assert_eq!(h.status, "healthy");
    assert_eq!(h.substrate, "connected (read-only)");
    assert_eq!(h.session_store, "connected");
    assert_eq!(h.active_ws_connections, 2);
    assert_eq!(h.uptime_seconds, 75);
    assert_eq!(h.version, "0.1.0");
}

#[test]
fn health_response_writable() {
    let h = health_response(false, "sqlite".to_string(), 0, 0, "0.2.0".to_string());
    assert_eq!(h.status, "healthy");
    assert_eq!(h.substrate, "connected");
    assert_eq!(h.session_store, "sqlite");
    assert_eq!(h.active_ws_connections, 0);
    assert_eq!(h.uptime_seconds, 0);
    assert_eq!(h.version, "0.2.0");
}

#[test]
fn session_db_path_appends_suffix() {
    assert_eq!(session_db_path("./my_project.db"), "./my_project.db.sessions.db");
}

#[test]
fn listen_address_joins_bind_and_port() {
    assert_eq!(listen_address("127.0.0.1", 3333), "127.0.0.1:3333");
    assert_eq!(listen_address("0.0.0.0", 0), "0.0.0.0:0");
    assert_eq!(listen_address("::1", 65535), "::1:65535");
}

#[test]
fn index_file_path_in_static_dir() {
    assert_eq!(index_file_path("frontend/dist"), "frontend/dist/index.html");
}

#[test]
fn plan_projection_message_has_decimal_dimension() {
    match plan_projection(3, 0) {
        Err(Error::Projection(msg)) => {
            assert_eq!(msg, "Embedding dimension 0 is less than 3, cannot project to 3D")
        }
        _ => panic!("expected a projection error"),
    }
    assert_eq!(listen_address("h", 10), "h:10");
    assert_eq!(listen_address("h", 9), "h:9");
    assert_eq!(listen_address("h", 100), "h:100");
}
