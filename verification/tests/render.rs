use tally::database::Connection;
use tally::errors::RenderError;
use tally::models::Counter;
use tally::template::render;

fn fresh() -> Connection {
    Connection::new(":memory:").expect("open in-memory store")
}

fn put(conn: &mut Connection, name: &str, count: i64, template: &str) {
    let mut c = Counter::get_or_create(conn, name).unwrap();
    c.count = count;
    c.template = template.to_string();
    c.update(conn).unwrap();
}

#[test]
fn bare_marker_renders_the_own_count() {
    let mut conn = fresh();
    put(&mut conn, "a", 5, "{}");
    assert_eq!(render(&conn, "a").unwrap(), "5");
}

#[test]
fn named_marker_renders_the_other_counter() {
    let mut conn = fresh();
    put(&mut conn, "a", 0, "total: {b}");
    put(&mut conn, "b", 3, "{}");
    assert_eq!(render(&conn, "a").unwrap(), "total: 3");
}

#[test]
fn mutual_references_are_a_cycle() {
    let mut conn = fresh();
    put(&mut conn, "a", 1, "{b}");
    put(&mut conn, "b", 2, "{a}");
    assert_eq!(render(&conn, "a"), Err(RenderError::CycleDetected));
    assert_eq!(render(&conn, "b"), Err(RenderError::CycleDetected));
}

#[test]
fn self_reference_is_a_cycle() {
    let mut conn = fresh();
    put(&mut conn, "a", 1, "{a}");
    assert_eq!(render(&conn, "a"), Err(RenderError::CycleDetected));
}

#[test]
fn unknown_counter_is_reported() {
    let conn = fresh();
    assert_eq!(render(&conn, "ghost"), Err(RenderError::UnknownCounter));
}

#[test]
fn unknown_reference_is_reported() {
    let mut conn = fresh();
    put(&mut conn, "a", 1, "{ghost}");
    assert_eq!(render(&conn, "a"), Err(RenderError::UnknownCounter));
}

#[test]
fn every_bare_marker_is_replaced() {
    let mut conn = fresh();
    put(&mut conn, "a", 2, "{} and {}");
    assert_eq!(render(&conn, "a").unwrap(), "2 and 2");
}

#[test]
fn text_without_markers_stands_as_it_is() {
    let mut conn = fresh();
    put(&mut conn, "a", 7, "plain text");
    assert_eq!(render(&conn, "a").unwrap(), "plain text");
}

#[test]
fn unmatched_brace_stands_as_it_is() {
    let mut conn = fresh();
    put(&mut conn, "a", 7, "x{y");
    assert_eq!(render(&conn, "a").unwrap(), "x{y");
}

#[test]
fn negative_count_renders_with_sign() {
    let mut conn = fresh();
    put(&mut conn, "a", -12, "{}");
    assert_eq!(render(&conn, "a").unwrap(), "-12");
}

#[test]
fn references_chain_through_several_counters() {
    let mut conn = fresh();
    put(&mut conn, "a", 0, "a={b}");
    put(&mut conn, "b", 0, "b={c}");
    put(&mut conn, "c", 9, "{}");
    assert_eq!(render(&conn, "a").unwrap(), "a=b=9");
}

#[test]
fn substituted_text_is_not_rescanned() {
    let mut conn = fresh();
    put(&mut conn, "a", 0, "{b} {c}");
    put(&mut conn, "b", 1, "{}");
    put(&mut conn, "c", 2, "{}");
    assert_eq!(render(&conn, "a").unwrap(), "1 2");
}

#[test]
fn rendering_mutates_no_counter() {
    let mut conn = fresh();
    put(&mut conn, "a", 4, "{b}!");
    put(&mut conn, "b", 8, "{}");
    render(&conn, "a").unwrap();
    assert_eq!(Counter::get(&conn, "a").unwrap().unwrap().count, 4);
    assert_eq!(Counter::get(&conn, "b").unwrap().unwrap().count, 8);
}

#[test]
fn unicode_text_renders_unharmed() {
    let mut conn = fresh();
    put(&mut conn, "kaffee", 2, "Tassen — {}!");
    assert_eq!(render(&conn, "kaffee").unwrap(), "Tassen — 2!");
}

#[test]
fn the_seeded_default_can_be_referenced() {
    let mut conn = fresh();
    put(&mut conn, "tally", 11, "{}");
    put(&mut conn, "report", 0, "so far: {tally}");
    assert_eq!(render(&conn, "report").unwrap(), "so far: 11");
}

#[test]
fn templates_keep_text_past_a_nul_byte() {
    let mut conn = fresh();
    put(&mut conn, "a", 7, "x\u{0}y: {}");
    assert_eq!(render(&conn, "a").unwrap(), "x\u{0}y: 7");
}
