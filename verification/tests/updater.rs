use aksum::generator::updater::{insert_at_marker, MarkerUpdate, UpdateError};

const MOD_RS: &str = "pub mod health;\n// aksum:module_declarations\n";

#[test]
fn inserts_line_above_marker() {
    let r = insert_at_marker(MOD_RS, "// aksum:module_declarations", "pub mod users;");
    assert_eq!(
        r,
        Ok(MarkerUpdate::Updated(
            "pub mod health;\npub mod users;\n// aksum:module_declarations\n".to_string()
        ))
    );
}

#[test]
fn insertion_is_idempotent() {
    let marker = "// aksum:module_declarations";
    let first = match insert_at_marker(MOD_RS, marker, "pub mod users;") {
        Ok(MarkerUpdate::Updated(s)) => s,
        other => panic!("unexpected {other:?}"),
    };
    assert!(first.contains(marker));
    assert_eq!(insert_at_marker(&first, marker, "pub mod users;"), Ok(MarkerUpdate::AlreadyPresent));
}

#[test]
fn present_line_is_detected_after_trimming() {
    let content = "        .merge(modules::users::controller::routes())\n// aksum:module_routes\n";
    let r = insert_at_marker(content, "// aksum:module_routes", "        .merge(modules::users::controller::routes())   ");
    assert_eq!(r, Ok(MarkerUpdate::AlreadyPresent));
}

#[test]
fn missing_marker_is_refused() {
    let r = insert_at_marker("fn main() {}\n", "// aksum:module_routes", "x");
    assert_eq!(r, Err(UpdateError::MarkerNotFound));
}

#[test]
fn already_present_wins_over_missing_marker() {
    let r = insert_at_marker("pub mod users;\n", "// aksum:module_declarations", "pub mod users;");
    assert_eq!(r, Ok(MarkerUpdate::AlreadyPresent));
}

#[test]
fn every_marker_occurrence_gets_the_line() {
    let r = insert_at_marker("// m\nmid\n// m\n", "// m", "x");
    assert_eq!(r, Ok(MarkerUpdate::Updated("x\n// m\nmid\nx\n// m\n".to_string())));
}

#[test]
fn blank_line_counts_as_present() {
    assert_eq!(insert_at_marker("abc", "// m", "   "), Ok(MarkerUpdate::AlreadyPresent));
}
