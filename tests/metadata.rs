use mdfmt::index::IndexPrinter;
use mdfmt::date::{parse_date, parse_date_time, parse_yyyy_mm};
use mdfmt::metadata::{Bookmark, BookmarkId, Date, DateTime, Meta, Metadata, NoteStatus};
use mdfmt::model::{Block, Note, NoteKind};
use mdfmt::toc::FlattenNode;

#[test]
fn normalize_empty() {
    assert_eq!(Meta::default().normalize(), None);
}

#[test]
fn metadata_normalize_title() {
    let metadata = Meta {
        title: None,
        bookmark: Some(Bookmark {
            title: Some("foo".into()),
            ..Default::default()
        }),
        ..Default::default()
    };
    assert_eq!(
        metadata.normalize(),
        Some(Meta {
            title: Some("foo".into()),
            bookmark: None,
            ..Default::default()
        })
    );
}

#[test]
fn metadata_normalize_link() {
    let metadata = Meta {
        link: None,
        bookmark: Some(Bookmark {
            url: Some("foo".into()),
            ..Default::default()
        }),
        ..Default::default()
    };
    assert_eq!(
        metadata.normalize(),
        Some(Meta {
            link: Some("foo".into()),
            bookmark: None,
            ..Default::default()
        })
    );
}

#[test]
fn metadata_normalize_journal_date() {
    let date = Date { year: 2000, month: 1, day: 1 };
    let metadata = Meta {
        journal_date: None,
        bookmark: Some(Bookmark {
            journal_date: Some(date),
            ..Default::default()
        }),
        ..Default::default()
    };
    assert_eq!(
        metadata.normalize(),
        Some(Meta {
            journal_date: Some(date),
            bookmark: None,
            ..Default::default()
        })
    );
}

#[test]
fn normalize_others() {
    let others = || vec![("foo".to_string(), serde_yaml::Value::String("bar".into()))];
    let metadata = Meta {
        bookmark: Some(Bookmark {
            others: others(),
            ..Default::default()
        }),
        ..Default::default()
    };
    assert_eq!(
        metadata.normalize(),
        Some(Meta {
            bookmark: Some(Bookmark {
                others: others(),
                ..Default::default()
            }),
            ..Default::default()
        })
    );
}

#[test]
fn top_level_value_wins_over_bookmark() {
    let metadata = Meta {
        title: Some("top".into()),
        bookmark: Some(Bookmark {
            title: Some("mark".into()),
            id: Some(BookmarkId("b1".into())),
            ..Default::default()
        }),
        ..Default::default()
    };
    assert_eq!(
        metadata.normalize(),
        Some(Meta {
            title: Some("top".into()),
            bookmark: Some(Bookmark {
                id: Some(BookmarkId("b1".into())),
                ..Default::default()
            }),
            ..Default::default()
        })
    );
}

#[test]
fn normalize_twice_is_normalize_once() {
    let make = || Meta {
        toc: Some("# a".into()),
        bookmark: Some(Bookmark {
            title: Some("t".into()),
            image: Some("i".into()),
            ..Default::default()
        }),
        ..Default::default()
    };
    let once = make().normalize().unwrap();
    assert_eq!(once.toc, None);
    let twice = make().normalize().unwrap().normalize();
    assert_eq!(twice, Some(once));
}

#[test]
fn raw_metadata_survives_normalization() {
    assert_eq!(
        Metadata::Raw("x".into()).normalize(),
        Some(Metadata::Raw("x".into()))
    );
    assert_eq!(Metadata::Meta(Meta::default()).normalize(), None);
}

#[test]
fn note_normalize_uses_top_level_outline() {
    let note = Note::new(
        Some(Metadata::Meta(Meta {
            title: Some("t".into()),
            toc: Some("- a\n  - b".into()),
            ..Default::default()
        })),
        vec![Block::text("x")],
    )
    .normalize();
    assert_eq!(
        note,
        Note::new(
            Some(Metadata::Meta(Meta {
                title: Some("t".into()),
                ..Default::default()
            })),
            vec![
                Block::toc(vec![FlattenNode(1, "a".into()), FlattenNode(2, "b".into())]),
                Block::text("x")
            ]
        )
    );
}

#[test]
fn note_normalize_without_outline_keeps_body() {
    let note = Note::new(
        Some(Metadata::Meta(Meta {
            toc: Some("no outline here".into()),
            ..Default::default()
        })),
        vec![Block::text("x")],
    )
    .normalize();
    assert_eq!(note, Note::new(None, vec![Block::text("x")]));
}

#[test]
fn names_of_kinds_and_statuses() {
    assert_eq!(NoteKind::Question.name(), "question");
    assert_eq!(NoteKind::from_name("todo"), NoteKind::Todo);
    assert_eq!(NoteKind::from_name("other"), NoteKind::Note);
    assert_eq!(NoteStatus::InProgress.name(), "in progress");
    assert_eq!(NoteStatus::from_name("not planned"), NoteStatus::NotPlanned);
    assert_eq!(NoteStatus::from_name("whatever"), NoteStatus::Todo);
}

#[test]
fn index_skips_notes_without_metadata() {
    let entries = vec![Some("{\"a\":1}".to_string()), None, Some("{\"b\":2}".to_string())];
    assert_eq!(IndexPrinter::print(&entries), "[{\"a\":1},{\"b\":2}]");
    assert_eq!(IndexPrinter::print(&vec![]), "[]");
}

fn midnight(year: i32, month: u32, day: u32) -> DateTime {
    DateTime {
        date: Date { year, month, day },
        hour: 0,
        minute: 0,
        second: 0,
        nanosecond: 0,
    }
}

#[test]
fn it_should_parse_yyyy_mm() {
    assert_eq!(parse_date_time("2000-01"), Some(midnight(2000, 1, 1)));
}

#[test]
fn it_should_parse_naive_date() {
    assert_eq!(parse_date_time("2000-01-01"), Some(midnight(2000, 1, 1)));
}

#[test]
fn it_should_parse_naive_date_time() {
    assert_eq!(parse_date_time("2000-01-01T00:00:00"), Some(midnight(2000, 1, 1)));
}

#[test]
fn it_should_parse_date_time() {
    assert_eq!(parse_date_time("2000-01-01T00:00:00+00:00"), Some(midnight(2000, 1, 1)));
}

#[test]
fn date_time_offset_taken_to_utc() {
    let t = parse_date_time("2000-01-01T05:30:00+09:00").unwrap();
    assert_eq!((t.date, t.hour, t.minute), (Date { year: 1999, month: 12, day: 31 }, 20, 30));
    assert_eq!(parse_date_time("2000-13"), None);
    assert_eq!(parse_date_time("yesterday"), None);
    assert_eq!(parse_date("2024-02-29"), Some(Date { year: 2024, month: 2, day: 29 }));
    assert_eq!(parse_yyyy_mm("1999-12-xx"), Some(Date { year: 1999, month: 12, day: 1 }));
}

#[test]
fn metadata_serialize() {
    let meta = Meta {
        kind: Some(NoteKind::Quote),
        status: Some(NoteStatus::InProgress),
        ..Default::default()
    };
    assert_eq!(meta.kind.unwrap().name(), "quote");
    assert_eq!(meta.status.unwrap().name(), "in progress");
}

#[test]
fn metadata_deserialize() {
    assert_eq!(NoteKind::from_name("quote"), NoteKind::Quote);
    assert_eq!(NoteStatus::from_name("in progress"), NoteStatus::InProgress);
}
