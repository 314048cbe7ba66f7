use skyscraper::{last_id_cursor, parse_max_id_from_link, Record};

#[test]
fn parse_max_id_simple_next_link() {
    let link = r#"<https://instance/api/v1/favourites?max_id=123>; rel="next""#;
    assert_eq!(parse_max_id_from_link(link), Some("123".to_string()));
}

#[test]
fn parse_max_id_prev_and_next() {
    let link = r#"<https://instance/api/v1/favourites?min_id=999>; rel="prev", <https://instance/api/v1/favourites?max_id=456>; rel="next""#;
    assert_eq!(parse_max_id_from_link(link), Some("456".to_string()));
}

#[test]
fn parse_max_id_no_next_rel() {
    let link = r#"<https://instance/api/v1/favourites?min_id=999>; rel="prev""#;
    assert_eq!(parse_max_id_from_link(link), None);
}

#[test]
fn parse_max_id_empty_string() {
    assert_eq!(parse_max_id_from_link(""), None);
}

#[test]
fn parse_max_id_multiple_query_params() {
    let link = r#"<https://instance/api/v1/favourites?limit=40&max_id=789>; rel="next""#;
    assert_eq!(parse_max_id_from_link(link), Some("789".to_string()));
}

#[test]
fn parse_max_id_next_without_angle_bracket() {
    let link = r#"https://instance/api/v1/favourites?max_id=1; rel="next""#;
    assert_eq!(parse_max_id_from_link(link), None);
}

#[test]
fn parse_max_id_next_without_query() {
    let link = r#"<https://instance/api/v1/favourites>; rel="next""#;
    assert_eq!(parse_max_id_from_link(link), None);
}

#[test]
fn parse_max_id_goes_on_to_later_next_link() {
    let link = r#"<https://a/x?since_id=1>; rel="next", <https://a/x?max_id=77>; rel="next""#;
    assert_eq!(parse_max_id_from_link(link), Some("77".to_string()));
}

fn status(id: &str) -> Record {
    Record { uri: id.to_string(), time: None, pinned: false, repost: false }
}

#[test]
fn last_id_cursor_is_oldest_status() {
    assert_eq!(last_id_cursor(&vec![status("1001"), status("1000")]), Some("1000".to_string()));
    assert_eq!(last_id_cursor(&vec![]), None);
}
