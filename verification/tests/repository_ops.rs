use crossword_repo::crossword_to_insertable;
use crossword_repo::AppError;
use crossword_repo::Crossword;
use crossword_repo::CrosswordRepository;
use crossword_repo::Date;

use crossword_repo::guardian::parse_guardian_crossword;

fn doc(text: &str) -> serde_json::Value {
    serde_json::from_str(text).unwrap()
}

fn cw(id: &str, series: &str, date: Date, json: &str) -> Crossword {
    Crossword { id: id.to_owned(), series: series.to_owned(), date, crossword_json: doc(json) }
}

fn jan(day: u32) -> Date {
    Date { year: 2024, month: 1, day }
}

const GUARDIAN_ONE: &str =
    "{\"id\":\"guardian-1\",\"name\":\"Quick crossword\",\"number\":1,\"grid\":[[\"A\",\"B\"],[\"C\",\"D\"]]}";

#[test]
fn stores_and_fetches_single_crossword() {
    let mut repo = CrosswordRepository::new();
    let stored = repo
        .store_crosswords(vec![cw("guardian-1", "guardian", jan(1), GUARDIAN_ONE)])
        .unwrap();
    assert_eq!(stored, 1);

    let fetched = repo
        .get_crossword_for_series_and_id("guardian-1".to_owned(), "guardian".to_owned())
        .unwrap();
    assert_eq!(fetched.id, "guardian-1");
    assert_eq!(fetched.name, "Quick crossword");
    assert_eq!(fetched.number, 1);

    let ids = repo.get_crossword_ids_for_series("guardian".to_owned()).unwrap();
    assert_eq!(ids, vec!["guardian-1".to_owned()]);
}

#[test]
fn missing_id_on_empty_storage_is_not_found() {
    let repo = CrosswordRepository::new();
    let r = repo.get_crossword_for_series_and_id("missing-id".to_owned(), "guardian".to_owned());
    match r {
        Err(AppError::CrosswordNotFound(id)) => assert_eq!(id, "missing-id"),
        _ => panic!("expected CrosswordNotFound"),
    }
}

#[test]
fn empty_series_listings_return_empty() {
    let mut repo = CrosswordRepository::new();
    repo.store_crosswords(vec![cw("guardian-1", "guardian", jan(1), GUARDIAN_ONE)])
        .unwrap();

    let ids = repo.get_crossword_ids_for_series("times".to_owned()).unwrap();
    assert!(ids.is_empty());
    let metas = repo.get_crossword_metadata_for_series("times".to_owned()).unwrap();
    assert!(metas.is_empty());
}

#[test]
fn ids_and_metadata_agree() {
    let mut repo = CrosswordRepository::new();
    repo.store_crosswords(vec![
        cw("g-1", "guardian", jan(1), "{\"id\":\"g-1\",\"name\":\"one\",\"number\":1}"),
        cw("t-1", "times", jan(2), "{\"id\":\"t-1\",\"name\":\"other\",\"number\":9}"),
        cw("g-2", "guardian", jan(3), "{\"id\":\"g-2\",\"name\":\"two\",\"number\":2}"),
    ])
    .unwrap();

    let ids = repo.get_crossword_ids_for_series("guardian".to_owned()).unwrap();
    let metas = repo.get_crossword_metadata_for_series("guardian".to_owned()).unwrap();
    let meta_ids: Vec<String> = metas.iter().map(|m| m.id.clone()).collect();
    assert_eq!(ids, meta_ids);
    assert_eq!(ids, vec!["g-1".to_owned(), "g-2".to_owned()]);
}

#[test]
fn metadata_projection_carries_fields() {
    let mut repo = CrosswordRepository::new();
    repo.store_crosswords(vec![cw("guardian-1", "guardian", jan(5), GUARDIAN_ONE)])
        .unwrap();

    let metas = repo.get_crossword_metadata_for_series("guardian".to_owned()).unwrap();
    assert_eq!(metas.len(), 1);
    assert_eq!(metas[0].id, "guardian-1");
    assert_eq!(metas[0].series, "guardian");
    assert_eq!(metas[0].date, jan(5));
}

#[test]
fn absent_pair_is_not_found() {
    let mut repo = CrosswordRepository::new();
    repo.store_crosswords(vec![cw("guardian-1", "guardian", jan(1), GUARDIAN_ONE)])
        .unwrap();

    let r = repo.get_crossword_for_series_and_id("guardian-1".to_owned(), "times".to_owned());
    match r {
        Err(AppError::CrosswordNotFound(id)) => assert_eq!(id, "guardian-1"),
        _ => panic!("expected CrosswordNotFound"),
    }
}

#[test]
fn found_crossword_has_queried_id() {
    let mut repo = CrosswordRepository::new();
    repo.store_crosswords(vec![
        cw("g-1", "guardian", jan(1), "{\"id\":\"g-1\",\"name\":\"one\",\"number\":1}"),
        cw("g-2", "guardian", jan(2), "{\"id\":\"g-2\",\"name\":\"two\",\"number\":2}"),
    ])
    .unwrap();

    let g = repo.get_crossword_for_series_and_id("g-2".to_owned(), "guardian".to_owned()).unwrap();
    assert_eq!(g.id, "g-2");
}

#[test]
fn round_trip_preserves_documents() {
    let docs = [
        ("g-1", "{\"id\":\"g-1\",\"name\":\"alpha\",\"number\":11}"),
        ("g-2", "{\"id\":\"g-2\",\"name\":\"beta\",\"number\":22}"),
        ("g-3", "{\"id\":\"g-3\",\"name\":\"gamma\",\"number\":33}"),
    ];
    let mut repo = CrosswordRepository::new();
    let rows: Vec<Crossword> =
        docs.iter().map(|(id, json)| cw(id, "guardian", jan(1), json)).collect();
    let stored = repo.store_crosswords(rows).unwrap();
    assert_eq!(stored, 3);

    for (id, json) in docs.iter() {
        let g = repo
            .get_crossword_for_series_and_id((*id).to_owned(), "guardian".to_owned())
            .unwrap();
        let original = doc(json);
        assert_eq!(g.id, original["id"].as_str().unwrap());
        assert_eq!(g.name, original["name"].as_str().unwrap());
        assert_eq!(g.number, original["number"].as_u64().unwrap());
    }
}

#[test]
fn duplicate_id_insert_fails_and_keeps_rows() {
    let mut repo = CrosswordRepository::new();
    repo.store_crosswords(vec![cw(
        "g-1",
        "guardian",
        jan(1),
        "{\"id\":\"g-1\",\"name\":\"original\",\"number\":1}",
    )])
    .unwrap();

    let r = repo.store_crosswords(vec![cw(
        "g-1",
        "guardian",
        jan(2),
        "{\"id\":\"g-1\",\"name\":\"overwrite\",\"number\":2}",
    )]);
    assert!(matches!(r, Err(AppError::InternalServerError(_))));

    let g = repo.get_crossword_for_series_and_id("g-1".to_owned(), "guardian".to_owned()).unwrap();
    assert_eq!(g.name, "original");
    assert_eq!(g.number, 1);
    let ids = repo.get_crossword_ids_for_series("guardian".to_owned()).unwrap();
    assert_eq!(ids.len(), 1);
}

#[test]
fn repeated_id_within_one_insert_fails_atomically() {
    let mut repo = CrosswordRepository::new();
    let r = repo.store_crosswords(vec![
        cw("g-1", "guardian", jan(1), "{\"id\":\"g-1\",\"name\":\"one\",\"number\":1}"),
        cw("g-1", "guardian", jan(2), "{\"id\":\"g-1\",\"name\":\"two\",\"number\":2}"),
    ]);
    assert!(matches!(r, Err(AppError::InternalServerError(_))));

    let ids = repo.get_crossword_ids_for_series("guardian".to_owned()).unwrap();
    assert!(ids.is_empty());
}

#[test]
fn nonconforming_document_is_internal_error() {
    let mut repo = CrosswordRepository::new();
    repo.store_crosswords(vec![
        cw("g-1", "guardian", jan(1), "[1,2,3]"),
        cw("g-2", "guardian", jan(2), "{\"id\":\"g-2\",\"name\":\"no number\"}"),
    ])
    .unwrap();

    let r1 = repo.get_crossword_for_series_and_id("g-1".to_owned(), "guardian".to_owned());
    assert!(matches!(r1, Err(AppError::InternalServerError(_))));
    let r2 = repo.get_crossword_for_series_and_id("g-2".to_owned(), "guardian".to_owned());
    assert!(matches!(r2, Err(AppError::InternalServerError(_))));
}

#[test]
fn parse_guardian_crossword_reads_fields() {
    let v = doc("{\"id\":\"g-9\",\"name\":\"themed\",\"number\":99}");
    let g = parse_guardian_crossword(&v).unwrap();
    assert_eq!(g.id, "g-9");
    assert_eq!(g.name, "themed");
    assert_eq!(g.number, 99);

    let wrong_type = doc("{\"id\":\"g-9\",\"name\":\"themed\",\"number\":\"99\"}");
    assert!(matches!(
        parse_guardian_crossword(&wrong_type),
        Err(AppError::InternalServerError(_))
    ));
}

#[test]
fn crossword_to_insertable_borrows_fields() {
    let c = cw("guardian-1", "guardian", jan(1), GUARDIAN_ONE);
    let insertable = crossword_to_insertable(&c);
    assert_eq!(insertable.id, "guardian-1");
    assert_eq!(insertable.series, "guardian");
    assert_eq!(insertable.date, jan(1));
    assert_eq!(insertable.crossword_json, c.crossword_json);
}
