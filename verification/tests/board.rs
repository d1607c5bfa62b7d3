use article_board::errors::RequestError;
use article_board::paths::{public_media_path, storage_file_path};
use article_board::store::Store;
use article_board::submit::{
    classify_field, Coordinator, FieldClass, Part, PartAction, submit_article_at,
};

fn text_part(name: &str, chunks: Vec<&[u8]>) -> Part {
    Part {
        name: String::from(name),
        filename: None,
        chunks: chunks.into_iter().map(|c| c.to_vec()).collect(),
    }
}

fn media_part(filename: &str, chunks: Vec<&[u8]>) -> Part {
    Part {
        name: String::from("media"),
        filename: Some(String::from(filename)),
        chunks: chunks.into_iter().map(|c| c.to_vec()).collect(),
    }
}

#[test]
fn submission_creates_article_with_media() {
    let mut board = Store::new();
    let parts = vec![
        text_part("title", vec![b"Hello"]),
        text_part("body", vec![b"World"]),
        media_part("cat.jpg", vec![b"ab", b"cd"]),
    ];
    let r = submit_article_at(&mut board, &parts, 100);
    assert_eq!(r, Ok(1));
    let a = board.get_article(1).expect("article must exist");
    assert_eq!(a.id, 1);
    assert_eq!(a.title, "Hello");
    assert_eq!(a.body, "World");
    assert_eq!(a.bump_time, 100);
    assert_eq!(board.get_media(1), vec![String::from("/uploads/article_cat.jpg")]);
    assert_eq!(board.get_comments(1), Vec::<String>::new());
}

#[test]
fn submission_without_media_is_rejected() {
    let mut board = Store::new();
    let parts = vec![text_part("title", vec![b"T"]), text_part("body", vec![b"B"])];
    let r = submit_article_at(&mut board, &parts, 100);
    assert_eq!(r, Err(RequestError::ValidationError));
    assert!(!board.has_article(1));
    assert!(board.list_articles().is_empty());
    assert!(board.get_media(1).is_empty());
}

#[test]
fn empty_submission_is_rejected() {
    let mut board = Store::new();
    let r = submit_article_at(&mut board, &Vec::new(), 5);
    assert_eq!(r, Err(RequestError::ValidationError));
    assert!(board.list_articles().is_empty());
}

#[test]
fn media_without_filename_is_skipped() {
    let mut board = Store::new();
    let mut p = media_part("x", vec![b"bytes"]);
    p.filename = None;
    let r = submit_article_at(&mut board, &vec![p], 5);
    assert_eq!(r, Err(RequestError::ValidationError));
}

#[test]
fn path_traversal_is_confined_to_upload_root() {
    let fs = storage_file_path("../../etc/passwd");
    assert_eq!(fs, "./uploads/article_....etcpasswd");
    let public = public_media_path("../../etc/passwd");
    assert_eq!(public, "/uploads/article_....etcpasswd");
    // nothing after the fixed prefix may be a path separator
    assert!(!fs["./uploads/".len()..].contains('/'));
    assert!(!fs["./uploads/".len()..].contains('\\'));
}

#[test]
fn dot_only_and_empty_filenames_collapse() {
    assert_eq!(storage_file_path(".."), "./uploads/article_");
    assert_eq!(storage_file_path(""), "./uploads/article_");
    assert_eq!(storage_file_path("a\\b:c"), "./uploads/article_abc");
}

#[test]
fn comment_bumps_article_to_comment_time() {
    let mut board = Store::new();
    let parts = vec![text_part("title", vec![b"T"]), media_part("f.png", vec![b"x"])];
    let id = submit_article_at(&mut board, &parts, 100).unwrap();
    let r = board.add_comment(id, String::from("hello"), 200);
    assert_eq!(r, Ok(()));
    let comments = board.get_comments(id);
    assert!(comments.contains(&String::from("hello")));
    let a = board.get_article(id).unwrap();
    assert_eq!(a.bump_time, 200);
}

#[test]
fn backwards_clock_never_lowers_bump_time() {
    let mut board = Store::new();
    let parts = vec![text_part("title", vec![b"T"]), media_part("f.png", vec![b"x"])];
    let id = submit_article_at(&mut board, &parts, 500).unwrap();
    board.add_comment(id, String::from("late clock"), 300).unwrap();
    assert_eq!(board.get_article(id).unwrap().bump_time, 500);
    board.add_comment(id, String::from("on time"), 600).unwrap();
    assert_eq!(board.get_article(id).unwrap().bump_time, 600);
    assert_eq!(
        board.get_comments(id),
        vec![String::from("late clock"), String::from("on time")]
    );
}

#[test]
fn rejection_needs_no_id_headroom() {
    let mut board = Store {
        articles: Vec::new(),
        media: Vec::new(),
        comments: Vec::new(),
        next_id: i64::MAX,
    };
    let r = submit_article_at(&mut board, &vec![text_part("title", vec![b"T"])], 1);
    assert_eq!(r, Err(RequestError::ValidationError));
    assert!(board.list_articles().is_empty());
}

#[test]
fn listing_orders_by_descending_bump_time() {
    let mut board = Store::new();
    let a = submit_article_at(
        &mut board,
        &vec![text_part("title", vec![b"A"]), media_part("a.png", vec![b"x"])],
        100,
    )
    .unwrap();
    let b = submit_article_at(
        &mut board,
        &vec![text_part("title", vec![b"B"]), media_part("b.png", vec![b"y"])],
        150,
    )
    .unwrap();
    let listing = board.list_articles();
    assert_eq!(listing.len(), 2);
    assert_eq!(listing[0].id, b);
    assert_eq!(listing[1].id, a);
    // bumping A moves it ahead of B
    board.add_comment(a, String::from("bump"), 300).unwrap();
    let listing = board.list_articles();
    assert_eq!(listing[0].id, a);
    assert_eq!(listing[0].title, "A");
    assert_eq!(listing[1].id, b);
}

#[test]
fn comments_on_different_articles_do_not_interfere() {
    let mut board = Store::new();
    let a = submit_article_at(
        &mut board,
        &vec![text_part("title", vec![b"A"]), media_part("a.png", vec![b"x"])],
        10,
    )
    .unwrap();
    let b = submit_article_at(
        &mut board,
        &vec![text_part("title", vec![b"B"]), media_part("b.png", vec![b"y"])],
        20,
    )
    .unwrap();
    board.add_comment(a, String::from("for a"), 300).unwrap();
    board.add_comment(b, String::from("for b"), 400).unwrap();
    assert_eq!(board.get_article(a).unwrap().bump_time, 300);
    assert_eq!(board.get_article(b).unwrap().bump_time, 400);
    assert_eq!(board.get_comments(a), vec![String::from("for a")]);
    assert_eq!(board.get_comments(b), vec![String::from("for b")]);
}

#[test]
fn media_rows_keep_submission_order() {
    let mut board = Store::new();
    let parts = vec![
        media_part("one.png", vec![b"1"]),
        media_part("two.png", vec![b"2"]),
        media_part("three.png", vec![b"3"]),
    ];
    let id = submit_article_at(&mut board, &parts, 7).unwrap();
    assert_eq!(
        board.get_media(id),
        vec![
            String::from("/uploads/article_one.png"),
            String::from("/uploads/article_two.png"),
            String::from("/uploads/article_three.png"),
        ]
    );
}

#[test]
fn text_chunks_accumulate_in_order() {
    let mut board = Store::new();
    let parts = vec![
        text_part("title", vec![b"He", b"llo", b"!"]),
        media_part("f.png", vec![b"x"]),
    ];
    let id = submit_article_at(&mut board, &parts, 1).unwrap();
    assert_eq!(board.get_article(id).unwrap().title, "Hello!");
}

#[test]
fn later_text_part_overwrites_earlier() {
    let mut board = Store::new();
    let parts = vec![
        text_part("title", vec![b"first"]),
        text_part("title", vec![b"second"]),
        media_part("f.png", vec![b"x"]),
    ];
    let id = submit_article_at(&mut board, &parts, 1).unwrap();
    assert_eq!(board.get_article(id).unwrap().title, "second");
}

#[test]
fn invalid_utf8_text_becomes_empty() {
    let mut board = Store::new();
    let parts = vec![
        text_part("title", vec![&[0xff, 0xfe][..]]),
        media_part("f.png", vec![b"x"]),
    ];
    let id = submit_article_at(&mut board, &parts, 1).unwrap();
    assert_eq!(board.get_article(id).unwrap().title, "");
}

#[test]
fn unknown_fields_are_ignored() {
    let mut board = Store::new();
    let parts = vec![
        text_part("spam", vec![b"junk"]),
        text_part("title", vec![b"T"]),
        media_part("f.png", vec![b"x"]),
    ];
    let id = submit_article_at(&mut board, &parts, 1).unwrap();
    let a = board.get_article(id).unwrap();
    assert_eq!(a.title, "T");
    assert_eq!(a.body, "");
}

#[test]
fn media_insert_for_unknown_article_fails() {
    let mut board = Store::new();
    let r = board.add_media(99, String::from("/uploads/article_x"));
    assert_eq!(r, Err(RequestError::PersistenceError));
}

#[test]
fn comment_for_unknown_article_fails() {
    let mut board = Store::new();
    let r = board.add_comment(99, String::from("hi"), 1);
    assert_eq!(r, Err(RequestError::PersistenceError));
    assert!(board.get_comments(99).is_empty());
}

#[test]
fn classify_routes_by_field_name() {
    assert_eq!(classify_field(&String::from("title")), FieldClass::TitleField);
    assert_eq!(classify_field(&String::from("body")), FieldClass::BodyField);
    assert_eq!(classify_field(&String::from("media")), FieldClass::MediaField);
    assert_eq!(classify_field(&String::from("other")), FieldClass::IgnoredField);
}

#[test]
fn coordinator_routes_parts_and_chunks() {
    let mut c = Coordinator::new();
    let act = c.start_part(&String::from("media"), Some(&String::from("pic.png")));
    match act {
        PartAction::CreateFile(p) => assert_eq!(p, "./uploads/article_pic.png"),
        _ => panic!("media part with filename must open a file"),
    }
    assert!(c.chunk(b"bytes"));
    let act = c.start_part(&String::from("title"), None);
    assert!(matches!(act, PartAction::AccumulateText));
    assert!(!c.chunk(b"T"));
    let act = c.start_part(&String::from("junk"), None);
    assert!(matches!(act, PartAction::Skip));
    assert!(!c.chunk(b"dropped"));
    let mut board = Store::new();
    let id = c.finish(&mut board, 42).unwrap();
    let a = board.get_article(id).unwrap();
    assert_eq!(a.title, "T");
    assert_eq!(a.bump_time, 42);
    assert_eq!(board.get_media(id), vec![String::from("/uploads/article_pic.png")]);
}

#[test]
fn same_filename_twice_yields_two_equal_rows() {
    let mut board = Store::new();
    let parts = vec![
        media_part("same.png", vec![b"1"]),
        media_part("same.png", vec![b"2"]),
    ];
    let id = submit_article_at(&mut board, &parts, 1).unwrap();
    let media = board.get_media(id);
    assert_eq!(media.len(), 2);
    assert_eq!(media[0], media[1]);
}

#[test]
fn clock_backed_entry_points_work() {
    let mut board = Store::new();
    let parts = vec![text_part("title", vec![b"T"]), media_part("f.png", vec![b"x"])];
    let id = article_board::submit::submit_article(&mut board, &parts).unwrap();
    let r = board.add_comment_now(id, String::from("hello"));
    assert_eq!(r, Ok(()));
    assert_eq!(board.get_comments(id), vec![String::from("hello")]);
}

#[test]
fn error_messages_are_stable() {
    assert_eq!(RequestError::ValidationError.message(), "Media file is required");
    assert_eq!(RequestError::MalformedStream.message(), "Malformed request body");
    assert_eq!(RequestError::StorageWriteError.message(), "Failed to store media file");
    assert_eq!(RequestError::PersistenceError.message(), "Database operation failed");
}
