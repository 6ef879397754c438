use digital_crossover::config::AppState;
use digital_crossover::metadata::{
    can_pair, event_of, extract_data_content, extract_tag_content, hex_to_ascii, is_item_readable,
    process_metadata_item, remove_breaks, ItemBuffer, MetadataEvent, MetadataReader, ReaderReply,
    ReaderStep,
};

fn item(kind: &str, code: &str, data: &str) -> String {
    format!(
        "<item><type>{kind}</type><code>{code}</code>\n<data encoding=\"base64\">\n{data}</data></item>"
    )
}

fn line_of(item: &str) -> Option<String> {
    assert!(is_item_readable(item));
    process_metadata_item(item).map(|e| e.line())
}

#[test]
fn content_of_a_tag() {
    let xml = "x<type> 636f7265\n</type>y";
    assert_eq!(extract_tag_content(xml, "type"), Some("636f7265".to_string()));
    assert_eq!(extract_tag_content(xml, "code"), None);
    assert_eq!(extract_tag_content("<type>abc", "type"), None);
    assert_eq!(extract_tag_content("</type><type>", "type"), None);
    assert_eq!(
        extract_tag_content("<a>1</a><a>2</a>", "a"),
        Some("1".to_string())
    );
    assert_eq!(
        extract_tag_content("<item><code>6d696e6d</code></item>", "code"),
        Some("6d696e6d".to_string())
    );
    assert_eq!(extract_tag_content("< type>1</ type>", "type"), None);
}

#[test]
fn content_of_the_data() {
    assert_eq!(
        extract_data_content("<data encoding=\"base64\"> QQ== </data>"),
        Some("QQ==".to_string())
    );
    assert_eq!(extract_data_content("<data></data>"), Some(String::new()));
    assert_eq!(
        extract_data_content("<item><data encoding=\"base64\">\n SGVsbG8= \n</data></item>"),
        Some("SGVsbG8=".to_string())
    );
    assert_eq!(extract_data_content("<data encoding"), None);
    assert_eq!(extract_data_content("<data>QQ=="), None);
    assert_eq!(extract_data_content("QQ=="), None);
}

#[test]
fn hexadecimal_codes() {
    assert_eq!(hex_to_ascii("636f7265"), "core");
    assert_eq!(hex_to_ascii("73736E63"), "ssnc");
    assert_eq!(hex_to_ascii("6"), "");
    assert_eq!(hex_to_ascii("6162f"), "ab");
    assert_eq!(hex_to_ascii("61zz62"), "ab");
    assert_eq!(hex_to_ascii("e9"), "é");
    assert_eq!(hex_to_ascii(""), "");
}

#[test]
fn pairs_are_numbers_as_the_standard_library_reads_them() {
    for a in 0u8..128 {
        for b in 0u8..128 {
            let s = String::from_utf8(vec![a, b]).unwrap();
            let expected: String =
                u8::from_str_radix(&s, 16).ok().map(|n| n as char).into_iter().collect();
            assert!(can_pair(&s));
            assert_eq!(hex_to_ascii(&s), expected, "{s:?}");
        }
    }
}

#[test]
fn pairs_must_not_cut_a_character() {
    assert!(can_pair("é6"));
    assert!(!can_pair("6é"));
    assert!(can_pair("€") == false);
    assert!(can_pair("6"));
    assert_eq!(hex_to_ascii("é61"), "a");
    assert!(!is_item_readable(&item("6é61", "6d696e6d", "QQ==")));
    assert!(is_item_readable("<type>6é</type>"));
}

#[test]
fn core_items_name_track_artist_and_album() {
    // "Caf\u{e9}" in UTF-8
    assert_eq!(
        line_of(&item("636f7265", "6d696e6d", "Q2Fmw6k=")),
        Some("🎵 Track:  Café".to_string())
    );
    assert_eq!(
        line_of(&item("636f7265", "61736172", "Q2Fm\r\nw 6k=")),
        Some("🎤 Artist: Café".to_string())
    );
    assert_eq!(
        line_of(&item("636f7265", "6173616c", "IEEg")),
        Some("💿 Album:  A".to_string())
    );
    assert_eq!(line_of(&item("636f7265", "61736364", "QQ==")), None);
}

#[test]
fn core_items_without_text_are_ignored() {
    assert_eq!(line_of(&item("636f7265", "6d696e6d", "")), None);
    assert_eq!(line_of(&item("636f7265", "6d696e6d", "ICA=")), None);
    assert_eq!(line_of(&item("636f7265", "6d696e6d", "Q2Fmw6k")), None);
    assert_eq!(line_of(&item("636f7265", "6d696e6d", "!!!!")), None);
}

#[test]
fn bytes_that_are_no_text_are_replaced() {
    assert_eq!(
        line_of(&item("636f7265", "6d696e6d", "Qf9C")),
        Some("🎵 Track:  A\u{fffd}B".to_string())
    );
}

#[test]
fn session_items_need_no_valid_data() {
    assert_eq!(
        line_of(&item("73736e63", "70626567", "!")),
        Some("▶️ Playback started".to_string())
    );
    assert_eq!(line_of(&item("73736e63", "70656e64", "")), Some("⏸ Playback stopped".to_string()));
    assert_eq!(
        line_of(&item("73736e63", "70666c73", "")),
        Some("🔁 Stream flushed (Seek/Skip)".to_string())
    );
    assert_eq!(line_of(&item("73736e63", "70766f6c", "")), None);
    assert_eq!(line_of(&item("61626364", "70626567", "")), None);
}

#[test]
fn session_items_need_no_data_at_all() {
    let plain = "<item><type>73736e63</type><code>70626567</code><length>0</length></item>";
    assert_eq!(line_of(plain), Some("▶️ Playback started".to_string()));
    assert_eq!(
        line_of("<item><type>73736e63</type><code>70656e64</code></item>"),
        Some("⏸ Playback stopped".to_string())
    );
    assert_eq!(line_of("<item><type>636f7265</type><code>6d696e6d</code></item>"), None);
    assert_eq!(line_of("<item><type>73736e63</type></item>"), None);
    assert_eq!(line_of("<item><code>70626567</code></item>"), None);
    assert_eq!(line_of("<item><type>6é</type><code>70626567</code></item>"), None);
}

#[test]
fn a_line_break_inside_the_data_does_not_matter() {
    let plain = "<item><type>636f7265</type><code>6d696e6d</code><length>5</length>\
                 <data encoding=\"base64\">SGVs\nbG8=</data></item>";
    assert_eq!(line_of(plain), Some("🎵 Track:  Hello".to_string()));
}

#[test]
fn events_reach_the_published_state() {
    let mut s: AppState<f64> = AppState::default();
    s.set_output(96000, "F32".to_string());
    for text in [
        item("636f7265", "6d696e6d", "SGVs\nbG8="),
        item("636f7265", "61736172", "QQ=="),
        item("636f7265", "6173616c", "Qg=="),
        item("73736e63", "70626567", ""),
        item("73736e63", "70666c73", ""),
    ] {
        s.note(process_metadata_item(&text).unwrap());
    }
    assert_eq!((s.track.as_str(), s.artist.as_str(), s.album.as_str()), ("Hello", "A", "B"));
    assert_eq!(s.playback, "Playing");
    s.note(MetadataEvent::PlaybackStopped);
    assert_eq!(s.playback, "Stopped");
    assert_eq!((s.track.as_str(), s.artist.as_str(), s.album.as_str()), ("Hello", "A", "B"));
    assert_eq!((s.output_rate, s.output_format.as_str()), (96000, "F32"));
    assert_eq!((s.buffer_fill, s.chunks_processed), (0.0, 0));
}

#[test]
fn events_from_their_parts() {
    assert!(matches!(event_of("core", "minm", Some(" x ")), Some(MetadataEvent::Track(s)) if s == "x"));
    assert!(matches!(event_of("core", "asar", Some("y")), Some(MetadataEvent::Artist(s)) if s == "y"));
    assert!(matches!(event_of("core", "asal", Some("z")), Some(MetadataEvent::Album(s)) if s == "z"));
    assert!(event_of("core", "minm", None).is_none());
    assert!(event_of("core", "pbeg", Some("x")).is_none());
    assert!(matches!(event_of("ssnc", "pbeg", None), Some(MetadataEvent::PlaybackStarted)));
    assert!(matches!(event_of("ssnc", "pend", None), Some(MetadataEvent::PlaybackStopped)));
    assert!(matches!(event_of("ssnc", "pfls", None), Some(MetadataEvent::StreamFlushed)));
    assert!(event_of("ssnc", "minm", Some("x")).is_none());
    assert_eq!(remove_breaks("a b\nc\r\td"), "abc\td");
}

#[test]
fn items_are_cut_out_of_the_stream() {
    let mut b = ItemBuffer::new();
    assert!(b.push_line("<item>one").is_empty());
    assert_eq!(b.push_line("</item>"), vec!["<item>one</item>".to_string()]);
    assert_eq!(
        b.push_line("\ntwo</item>three</item>four"),
        vec!["\ntwo</item>".to_string(), "three</item>".to_string()]
    );
    assert!(b.push_line("").is_empty());
    assert_eq!(b.push_line("</item>"), vec!["four</item>".to_string()]);
}

#[test]
fn the_pieces_of_the_stream_do_not_matter() {
    let stream = "a</item>b</item>c</item></item>d";
    let mut whole = ItemBuffer::new();
    let expected = whole.push_line(stream);
    assert_eq!(expected, vec!["a</item>", "b</item>", "c</item>", "</item>"]);
    let chars: Vec<char> = stream.chars().collect();
    for cut in 0..=chars.len() {
        let first: String = chars[..cut].iter().collect();
        let second: String = chars[cut..].iter().collect();
        let mut b = ItemBuffer::new();
        let mut got = b.push_line(&first);
        got.extend(b.push_line(&second));
        assert_eq!(got, expected);
    }
}

#[test]
fn the_reader_connects_reads_and_starts_over() {
    let mut r = MetadataReader::new();
    assert_eq!(r.step, ReaderStep::AskBeforeConnect);
    for (reply, next) in [
        (ReaderReply::No, ReaderStep::LookForPipe),
        (ReaderReply::No, ReaderStep::Sleep),
        (ReaderReply::Yes, ReaderStep::AskBeforeConnect),
        (ReaderReply::No, ReaderStep::LookForPipe),
        (ReaderReply::Yes, ReaderStep::Open),
        (ReaderReply::No, ReaderStep::Sleep),
        (ReaderReply::No, ReaderStep::AskBeforeConnect),
        (ReaderReply::No, ReaderStep::LookForPipe),
        (ReaderReply::Yes, ReaderStep::Open),
        (ReaderReply::Yes, ReaderStep::AskWhileConnected),
        (ReaderReply::No, ReaderStep::Poll),
        (ReaderReply::No, ReaderStep::AskWhileConnected),
        (ReaderReply::No, ReaderStep::Poll),
        (ReaderReply::Yes, ReaderStep::ReadLine),
        (ReaderReply::WouldBlock, ReaderStep::AskWhileConnected),
        (ReaderReply::No, ReaderStep::Poll),
        (ReaderReply::Yes, ReaderStep::ReadLine),
    ] {
        assert!(r.advance(reply, "unused").is_empty());
        assert_eq!(r.step, next);
    }
    assert!(r.advance(ReaderReply::Line, "left over").is_empty());
    assert_eq!(r.step, ReaderStep::AskWhileConnected);
    r.advance(ReaderReply::No, "");
    r.advance(ReaderReply::Yes, "");
    r.advance(ReaderReply::EndOfFile, "");
    assert_eq!(r.step, ReaderStep::Sleep);
    r.advance(ReaderReply::No, "");
    r.advance(ReaderReply::No, "");
    r.advance(ReaderReply::Yes, "");
    r.advance(ReaderReply::Yes, "");
    r.advance(ReaderReply::No, "");
    r.advance(ReaderReply::Yes, "");
    assert_eq!(r.step, ReaderStep::ReadLine);
    // a new connection does not see what the last one left
    assert_eq!(
        r.advance(ReaderReply::Line, "new</item>"),
        vec!["new</item>".to_string()]
    );
}

#[test]
fn the_reader_stops_when_told() {
    let mut r = MetadataReader::new();
    r.advance(ReaderReply::Yes, "");
    assert_eq!(r.step, ReaderStep::Stop);
    r.advance(ReaderReply::No, "");
    assert_eq!(r.step, ReaderStep::Stop);
    let mut r = MetadataReader::new();
    for reply in [ReaderReply::No, ReaderReply::Yes, ReaderReply::Yes] {
        r.advance(reply, "");
    }
    assert_eq!(r.step, ReaderStep::AskWhileConnected);
    r.advance(ReaderReply::Yes, "");
    assert_eq!(r.step, ReaderStep::Stop);
    let mut r = MetadataReader::new();
    for reply in
        [ReaderReply::No, ReaderReply::Yes, ReaderReply::Yes, ReaderReply::No, ReaderReply::Yes]
    {
        r.advance(reply, "");
    }
    r.advance(ReaderReply::Failed, "");
    assert_eq!(r.step, ReaderStep::Sleep);
}
