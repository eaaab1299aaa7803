use clippy2::clipboard_read::{
    after_compress, check, classify, file_record, image_record, pick_format, text_record, Accepted,
    Action, ClipboardFormats, ClipboardReading, ContentKind, ContentSnapshot, DedupGuard, Event,
    Offer, PollState, Poller, Record, POLL_INTERVAL_MS,
};
use clippy2::encoding::{from_base64, to_base64};
use clippy2::optimize_img::{optimize_img, CompressError};

fn formats(file_url: bool, image: bool, text: bool) -> ClipboardFormats {
    ClipboardFormats { file_url, image, text }
}

fn tiny_png(width: u32, height: u32, shade: u8) -> Vec<u8> {
    let buffer = image::RgbaImage::from_pixel(width, height, image::Rgba([shade, 40, 90, 255]));
    let mut bytes = Vec::new();
    image::DynamicImage::ImageRgba8(buffer)
        .write_to(&mut std::io::Cursor::new(&mut bytes), image::ImageFormat::Png)
        .unwrap();
    bytes
}

#[test]
fn update_reports_a_change_of_type_or_value() {
    let mut last = Record::new();
    assert!(last.update("text", "a", None));
    assert!(!last.update("text", "a", None));
    assert!(last.update("text", "b", None));
    assert!(last.update("file", "b", None));
    assert!(!last.update("file", "b", None));
    assert!(last.update("text", "", None));
    assert!(!last.update("text", "", None));
}

#[test]
fn update_keeps_the_bytes_only_on_a_change() {
    let mut last = Record::new();
    assert!(!last.is_same_img(b""));
    assert!(last.update("image", "AQID", Some(vec![1, 2, 3])));
    assert!(last.is_same_img(&[1, 2, 3]));
    assert!(!last.is_same_img(&[1, 2]));
    assert!(!last.is_same_img(&[1, 2, 4]));
    assert!(!last.update("image", "AQID", Some(vec![9])));
    assert!(last.is_same_img(&[1, 2, 3]));
    assert!(last.update("text", "t", None));
    assert!(!last.is_same_img(&[1, 2, 3]));
}

#[test]
fn files_win_over_images_and_images_over_text() {
    assert_eq!(pick_format(formats(true, true, true)), Some(ContentKind::File));
    assert_eq!(pick_format(formats(true, false, true)), Some(ContentKind::File));
    assert_eq!(pick_format(formats(true, false, false)), Some(ContentKind::File));
    assert_eq!(pick_format(formats(false, true, true)), Some(ContentKind::Image));
    assert_eq!(pick_format(formats(false, true, false)), Some(ContentKind::Image));
    assert_eq!(pick_format(formats(false, false, true)), Some(ContentKind::Text));
    assert_eq!(pick_format(formats(false, false, false)), None);
}

#[test]
fn a_reading_is_classified_by_its_first_format() {
    let both = ClipboardReading {
        file: Offer::Data("/tmp/a".to_string()),
        image: Offer::Absent,
        text: Offer::Data("/tmp/a".to_string()),
    };
    let snapshot = classify(both).unwrap();
    assert_eq!(snapshot.kind(), ContentKind::File);
    assert!(matches!(snapshot, ContentSnapshot::File(p) if p == "/tmp/a"));

    let image = ClipboardReading {
        file: Offer::Absent,
        image: Offer::Data(vec![1, 2]),
        text: Offer::Data("t".to_string()),
    };
    assert!(matches!(classify(image), Some(ContentSnapshot::Image(b)) if b == [1, 2]));

    let text = ClipboardReading {
        file: Offer::Absent,
        image: Offer::Absent,
        text: Offer::Data("t".to_string()),
    };
    let snapshot = classify(text).unwrap();
    assert_eq!(snapshot.kind(), ContentKind::Text);
    assert!(matches!(snapshot, ContentSnapshot::Text(t) if t == "t"));
}

#[test]
fn an_unreadable_first_format_gives_no_snapshot() {
    let file = ClipboardReading {
        file: Offer::Unreadable,
        image: Offer::Data(vec![1]),
        text: Offer::Data("t".to_string()),
    };
    assert!(classify(file).is_none());
    let image = ClipboardReading {
        file: Offer::Absent,
        image: Offer::Unreadable,
        text: Offer::Data("t".to_string()),
    };
    assert!(classify(image).is_none());
    let text = ClipboardReading { file: Offer::Absent, image: Offer::Absent, text: Offer::Unreadable };
    assert!(classify(text).is_none());
    let empty = ClipboardReading { file: Offer::Absent, image: Offer::Absent, text: Offer::Absent };
    assert!(classify(empty).is_none());
}

#[test]
fn the_guard_lets_text_through_once() {
    let mut guard = DedupGuard::new(Record::new());
    assert!(matches!(
        guard.accept(ContentSnapshot::Text("a".to_string())),
        Some(Accepted::Text(t)) if t == "a"
    ));
    assert!(guard.accept(ContentSnapshot::Text("a".to_string())).is_none());
    assert!(guard.accept(ContentSnapshot::Text("a".to_string())).is_none());
    assert!(matches!(
        guard.accept(ContentSnapshot::File("a".to_string())),
        Some(Accepted::File(p)) if p == "a"
    ));
    assert!(guard.accept(ContentSnapshot::File("a".to_string())).is_none());
    assert!(guard.accept(ContentSnapshot::Text("a".to_string())).is_some());
}

#[test]
fn the_guard_compares_images_by_their_bytes() {
    let mut guard = DedupGuard::new(Record::new());
    let accepted = guard.accept(ContentSnapshot::Image(vec![1, 2, 3])).unwrap();
    match accepted {
        Accepted::Image { value, bytes } => {
            assert_eq!(value, "AQID");
            assert_eq!(bytes, vec![1, 2, 3]);
        }
        _ => panic!("an image was accepted"),
    }
    assert!(guard.accept(ContentSnapshot::Image(vec![1, 2, 3])).is_none());
    assert!(guard.accept(ContentSnapshot::Image(vec![1, 2, 3, 4])).is_some());
    assert!(guard.accept(ContentSnapshot::Image(vec![1, 2, 3])).is_some());
    // Text that reads like the image's value is still new content.
    assert!(guard.accept(ContentSnapshot::Text("AQID".to_string())).is_some());
    assert!(guard.accept(ContentSnapshot::Image(vec![1, 2, 3])).is_some());
}

#[test]
fn an_accepted_image_has_a_value_unless_it_is_empty() {
    let mut guard = DedupGuard::new(Record::new());
    match guard.accept(ContentSnapshot::Image(Vec::new())).unwrap() {
        Accepted::Image { value, .. } => assert!(value.is_empty()),
        _ => panic!("an image was accepted"),
    }
    match guard.accept(ContentSnapshot::Image(vec![0])).unwrap() {
        Accepted::Image { value, .. } => assert_eq!(value, "AA=="),
        _ => panic!("an image was accepted"),
    }
}

#[test]
fn records_are_built_per_kind() {
    let r = text_record("t".to_string());
    assert_eq!((r.record_type.as_str(), r.value.as_str()), ("text", "t"));
    assert!(r.thumbnail.is_none() && r.size.is_none() && r.img_size.is_none());
    let r = file_record("/p".to_string(), 12);
    assert_eq!((r.record_type.as_str(), r.value.as_str(), r.size), ("file", "/p", Some(12)));
    assert!(r.thumbnail.is_none() && r.img_size.is_none());
    let r = image_record("v".to_string(), "th".to_string(), "1x2".to_string());
    assert_eq!((r.record_type.as_str(), r.value.as_str()), ("image", "v"));
    assert_eq!(r.thumbnail.as_deref(), Some("th"));
    assert_eq!(r.img_size.as_deref(), Some("1x2"));
    assert!(r.size.is_none());
}

#[test]
fn the_pause_is_300_ms() {
    assert_eq!(POLL_INTERVAL_MS, 300);
}

fn poller() -> Poller {
    Poller::new(DedupGuard::new(Record::new()))
}

#[test]
fn a_text_cycle_ends_in_the_store() {
    let mut p = poller();
    assert!(p.is_idle());
    assert!(matches!(check(&mut p, Event::Tick), Action::ListFormats));
    assert!(!p.is_idle());
    assert!(matches!(check(&mut p, Event::Formats(formats(false, false, true))), Action::ReadText));
    match check(&mut p, Event::Text(Some("hello".to_string()))) {
        Action::Store(r) => {
            assert_eq!(r.record_type, "text");
            assert_eq!(r.value, "hello");
            assert!(r.thumbnail.is_none() && r.size.is_none() && r.img_size.is_none());
        }
        _ => panic!("the text is stored"),
    }
    assert!(!p.is_idle());
    assert!(matches!(check(&mut p, Event::Stored), Action::Sleep));
    assert!(p.is_idle());
}

#[test]
fn the_same_text_twice_is_stored_once() {
    let mut p = poller();
    let mut stores = 0;
    for _ in 0..5 {
        assert!(matches!(check(&mut p, Event::Tick), Action::ListFormats));
        assert!(matches!(check(&mut p, Event::Formats(formats(false, false, true))), Action::ReadText));
        match check(&mut p, Event::Text(Some("same".to_string()))) {
            Action::Store(_) => {
                stores += 1;
                assert!(matches!(check(&mut p, Event::Stored), Action::Sleep));
            }
            Action::Sleep => {}
            _ => panic!("text is stored or dropped"),
        }
        assert!(p.is_idle());
    }
    assert_eq!(stores, 1);
}

#[test]
fn a_file_cycle_looks_up_the_size() {
    let mut p = poller();
    check(&mut p, Event::Tick);
    assert!(matches!(check(&mut p, Event::Formats(formats(true, true, true))), Action::ReadFile));
    assert!(matches!(
        check(&mut p, Event::FilePath(Some("/tmp/a.txt".to_string()))),
        Action::Measure(path) if path == "/tmp/a.txt"
    ));
    match check(&mut p, Event::FileSize(Some(1234))) {
        Action::Store(r) => {
            assert_eq!(r.record_type, "file");
            assert_eq!(r.value, "/tmp/a.txt");
            assert_eq!(r.size, Some(1234));
            assert!(r.thumbnail.is_none() && r.img_size.is_none());
        }
        _ => panic!("the file is stored"),
    }
    assert!(matches!(check(&mut p, Event::Stored), Action::Sleep));
    assert!(p.is_idle());
}

#[test]
fn a_file_without_metadata_is_dropped_and_not_retried() {
    let mut p = poller();
    check(&mut p, Event::Tick);
    check(&mut p, Event::Formats(formats(true, false, false)));
    assert!(matches!(check(&mut p, Event::FilePath(Some("/gone".to_string()))), Action::Measure(_)));
    assert!(matches!(check(&mut p, Event::FileSize(None)), Action::Sleep));
    assert!(p.is_idle());
    check(&mut p, Event::Tick);
    check(&mut p, Event::Formats(formats(true, false, false)));
    assert!(matches!(check(&mut p, Event::FilePath(Some("/gone".to_string()))), Action::Sleep));
    assert!(p.is_idle());
}

#[test]
fn missing_data_ends_the_cycle() {
    let mut p = poller();
    check(&mut p, Event::Tick);
    assert!(matches!(check(&mut p, Event::Formats(formats(false, false, false))), Action::Sleep));
    assert!(p.is_idle());
    check(&mut p, Event::Tick);
    check(&mut p, Event::Formats(formats(true, false, true)));
    assert!(matches!(check(&mut p, Event::FilePath(None)), Action::Sleep));
    assert!(p.is_idle());
    check(&mut p, Event::Tick);
    check(&mut p, Event::Formats(formats(false, true, true)));
    assert!(matches!(check(&mut p, Event::ImageBytes(None)), Action::Sleep));
    assert!(p.is_idle());
    check(&mut p, Event::Tick);
    check(&mut p, Event::Formats(formats(false, false, true)));
    assert!(matches!(check(&mut p, Event::Text(None)), Action::Sleep));
    assert!(p.is_idle());
}

#[test]
fn an_event_out_of_turn_ends_the_cycle() {
    let mut p = poller();
    assert!(matches!(check(&mut p, Event::Stored), Action::Sleep));
    assert!(matches!(check(&mut p, Event::Text(Some("x".to_string()))), Action::Sleep));
    assert!(p.is_idle());
    check(&mut p, Event::Tick);
    assert!(matches!(check(&mut p, Event::Tick), Action::Sleep));
    assert!(p.is_idle());
    check(&mut p, Event::Tick);
    check(&mut p, Event::Formats(formats(false, false, true)));
    assert!(matches!(check(&mut p, Event::FilePath(Some("/x".to_string()))), Action::Sleep));
    assert!(p.is_idle());
    // The text that was never read is still new.
    check(&mut p, Event::Tick);
    check(&mut p, Event::Formats(formats(false, false, true)));
    assert!(matches!(check(&mut p, Event::Text(Some("x".to_string()))), Action::Store(_)));
}

#[test]
fn an_image_cycle_stores_value_thumbnail_and_size() {
    let png = tiny_png(300, 150, 200);
    let mut p = poller();
    check(&mut p, Event::Tick);
    assert!(matches!(check(&mut p, Event::Formats(formats(false, true, true))), Action::ReadImage));
    match check(&mut p, Event::ImageBytes(Some(png.clone()))) {
        Action::Store(r) => {
            assert_eq!(r.record_type, "image");
            assert_eq!(Some(r.value.clone()), to_base64(&png));
            assert_eq!(from_base64(&r.value), Some(png.clone()));
            assert_eq!(r.img_size.as_deref(), Some("300x150"));
            assert!(r.size.is_none());
            let thumbnail = from_base64(r.thumbnail.as_deref().unwrap()).unwrap();
            let small = image::load_from_memory(&thumbnail).unwrap();
            assert_eq!((small.width(), small.height()), (240, 120));
        }
        _ => panic!("the image is stored"),
    }
    assert!(matches!(check(&mut p, Event::Stored), Action::Sleep));

    // The same bytes again: nothing to do.
    check(&mut p, Event::Tick);
    check(&mut p, Event::Formats(formats(false, true, false)));
    assert!(matches!(check(&mut p, Event::ImageBytes(Some(png))), Action::Sleep));
    assert!(p.is_idle());

    // Other bytes: stored again.
    check(&mut p, Event::Tick);
    check(&mut p, Event::Formats(formats(false, true, false)));
    assert!(matches!(check(&mut p, Event::ImageBytes(Some(tiny_png(300, 150, 10)))), Action::Store(_)));
}

#[test]
fn an_image_that_does_not_decode_is_skipped_once() {
    let mut p = poller();
    for _ in 0..3 {
        check(&mut p, Event::Tick);
        check(&mut p, Event::Formats(formats(false, true, false)));
        assert!(matches!(check(&mut p, Event::ImageBytes(Some(b"garbage".to_vec()))), Action::Sleep));
        assert!(p.is_idle());
    }
    // The loop goes on.
    check(&mut p, Event::Tick);
    check(&mut p, Event::Formats(formats(false, false, true)));
    assert!(matches!(check(&mut p, Event::Text(Some("after".to_string()))), Action::Store(_)));
}

#[test]
fn the_compressor_s_answer_decides_what_follows() {
    let (state, action) =
        after_compress("VALUE".to_string(), Ok(("THUMB".to_string(), "4x3".to_string())));
    assert!(matches!(state, PollState::Storing));
    match action {
        Action::Store(r) => {
            assert_eq!(r.record_type, "image");
            assert_eq!(r.value, "VALUE");
            assert_eq!(r.thumbnail.as_deref(), Some("THUMB"));
            assert_eq!(r.img_size.as_deref(), Some("4x3"));
            assert!(r.size.is_none());
        }
        _ => panic!("the image is stored"),
    }
    for e in [
        CompressError::Decode,
        CompressError::Quantize,
        CompressError::Encode,
        CompressError::Empty,
    ] {
        let (state, action) = after_compress("VALUE".to_string(), Err(e));
        assert!(matches!(state, PollState::Idle));
        assert!(matches!(action, Action::Sleep));
    }
}

#[test]
fn an_image_that_scales_to_nothing_is_skipped() {
    let narrow = tiny_png(1000, 1, 7);
    assert_eq!(optimize_img(&narrow).err(), Some(CompressError::Empty));
    let mut p = poller();
    check(&mut p, Event::Tick);
    check(&mut p, Event::Formats(formats(false, true, false)));
    assert!(matches!(check(&mut p, Event::ImageBytes(Some(narrow.clone()))), Action::Sleep));
    assert!(p.is_idle());
    // The guard has seen it all the same.
    check(&mut p, Event::Tick);
    check(&mut p, Event::Formats(formats(false, true, false)));
    assert!(matches!(check(&mut p, Event::ImageBytes(Some(narrow))), Action::Sleep));
}

fn report(reading: &ClipboardReading, action: &Action) -> Event {
    fn data<T: Clone>(offer: &Offer<T>) -> Option<T> {
        match offer {
            Offer::Data(d) => Some(d.clone()),
            _ => None,
        }
    }
    match action {
        Action::ListFormats => Event::Formats(ClipboardFormats {
            file_url: !matches!(reading.file, Offer::Absent),
            image: !matches!(reading.image, Offer::Absent),
            text: !matches!(reading.text, Offer::Absent),
        }),
        Action::ReadFile => Event::FilePath(data(&reading.file)),
        Action::ReadImage => Event::ImageBytes(data(&reading.image)),
        Action::ReadText => Event::Text(data(&reading.text)),
        _ => Event::Tick,
    }
}

#[test]
fn a_cycle_reads_what_classify_says() {
    let files = [Offer::Absent, Offer::Unreadable, Offer::Data("/tmp/a".to_string())];
    let images = [Offer::Absent, Offer::Unreadable, Offer::Data(tiny_png(4, 4, 1))];
    let texts = [Offer::Absent, Offer::Unreadable, Offer::Data("text".to_string())];
    for file in &files {
        for image in &images {
            for text in &texts {
                let reading =
                    ClipboardReading { file: file.clone(), image: image.clone(), text: text.clone() };
                let mut p = poller();
                let list = check(&mut p, Event::Tick);
                let read = check(&mut p, report(&reading, &list));
                let action = if matches!(read, Action::Sleep) {
                    read
                } else {
                    check(&mut p, report(&reading, &read))
                };
                match classify(reading) {
                    None => {
                        assert!(matches!(action, Action::Sleep));
                        assert!(p.is_idle());
                    }
                    Some(ContentSnapshot::File(path)) => {
                        assert!(matches!(action, Action::Measure(m) if m == path));
                    }
                    Some(ContentSnapshot::Image(bytes)) => match action {
                        Action::Store(r) => assert_eq!(Some(r.value), to_base64(&bytes)),
                        _ => panic!("a fresh image that decodes is stored"),
                    },
                    Some(ContentSnapshot::Text(t)) => {
                        assert!(matches!(action, Action::Store(r) if r.value == t));
                    }
                }
            }
        }
    }
}
