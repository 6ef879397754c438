//! Laws of reading the metadata stream.

use crate::config::AppState;
use crate::laws::text::{
    find_is_first, first_reads, is_blank, never_reads, reads, trim_trims, trimmed_at,
    trimming_is_unique, trims_to,
};
use crate::metadata::{
    ascii_text_is_in_pairs, base64_decoded, can_pair, close_tag, concat, data_content, event_of,
    extract_data_content, extract_tag_content, hex_digit, hex_text, hex_text_reads_hex, hex_to_ascii, in_pairs,
    is_item_readable, item_end, item_readable, items, items_are_the_closed_parts,
    items_do_not_depend_on_the_pieces, lossy_text, open_tag, process_metadata_item, remainder,
    remove_breaks, tag_content, views, without_breaks, writes_hex, ItemBuffer, MetadataEvent,
    MetadataReader, ReaderReply, ReaderStep,
};
use vstd::prelude::*;
use vstd::utf8::*;

verus! {

// ---------------------------------------------------------------------------
// Tags
// ---------------------------------------------------------------------------
/// The characters of `<tag>`.
pub open spec fn opening(tag: Seq<char>) -> Seq<char> {
    seq!['<'] + tag + seq!['>']
}

/// The characters of `</tag>`.
pub open spec fn closing(tag: Seq<char>) -> Seq<char> {
    seq!['<', '/'] + tag + seq!['>']
}

proof fn lemma_tags(tag: Seq<char>)
    ensures
        open_tag(tag) == opening(tag),
        close_tag(tag) == closing(tag),
{
    reveal_strlit("<");
    reveal_strlit("</");
    reveal_strlit(">");
    assert("<"@ == seq!['<']);
    assert("</"@ == seq!['<', '/']);
    assert(">"@ == seq!['>']);
}

/// The first opening tag stands at `i`, and the first closing tag behind it at `j`.
pub open spec fn element_at(xml: Seq<char>, tag: Seq<char>, i: int, j: int) -> bool {
    first_reads(xml, opening(tag), 0, i) && first_reads(xml, closing(tag), i + tag.len() + 2, j)
}

/// The content of a tag is what stands between the first opening tag and the first
/// closing tag behind it, without the white space at its ends. There is none
/// exactly where one of the two tags is missing.
pub proof fn the_content_stands_between_the_tags(xml: &str, tag: &str, r: Option<String>)
    requires
        call_ensures(extract_tag_content, (xml, tag), r),
    ensures
        match r {
            Some(s) => exists|i: int, j: int|
                #[trigger] element_at(xml@, tag@, i, j) && trims_to(
                    xml@.subrange(i + tag@.len() + 2, j),
                    s@,
                ),
            None => never_reads(xml@, opening(tag@), 0) || exists|i: int|
                #[trigger] first_reads(xml@, opening(tag@), 0, i) && never_reads(
                    xml@,
                    closing(tag@),
                    i + tag@.len() + 2,
                ),
        },
{
    lemma_tags(tag@);
    find_is_first(xml@, opening(tag@), 0);
    if let Some(i) = crate::text::find(xml@, opening(tag@)) {
        let start = i + tag@.len() + 2;
        find_is_first(xml@, closing(tag@), start);
        if let Some(j) = crate::text::find_from(xml@, closing(tag@), start) {
            trim_trims(xml@.subrange(start, j));
            assert(element_at(xml@, tag@, i, j));
        }
    }
}

/// The first place is the only first one.
proof fn lemma_first_is_one(s: Seq<char>, pat: Seq<char>, from: int, i: int, j: int)
    requires
        first_reads(s, pat, from, i),
        first_reads(s, pat, from, j),
    ensures
        i == j,
{
}

/// A text between a tag and its end is read back, character for character, where it
/// neither begins nor ends with white space: from the first opening tag to the
/// first closing tag behind it.
pub proof fn tags_give_back_the_text(
    xml: &str,
    tag: &str,
    i: int,
    text: Seq<char>,
    r: Option<String>,
)
    requires
        call_ensures(extract_tag_content, (xml, tag), r),
        first_reads(xml@, opening(tag@), 0, i),
        xml@.subrange(i + tag@.len() + 2, i + tag@.len() + 2 + text.len()) == text,
        first_reads(
            xml@,
            closing(tag@),
            i + tag@.len() + 2,
            i + tag@.len() + 2 + text.len(),
        ),
        text.len() > 0 ==> !is_blank(text[0]) && !is_blank(text[text.len() - 1]),
    ensures
        r matches Some(s) && s@ == text,
{
    the_content_stands_between_the_tags(xml, tag, r);
    assert(!never_reads(xml@, opening(tag@), 0)) by {
        assert(reads(xml@, i, opening(tag@)));
    }
    let start = i + tag@.len() + 2;
    let end = start + text.len();
    assert(reads(xml@, end, closing(tag@)));
    assert(trimmed_at(text, 0, text.len() as int));
    assert(text.subrange(0, text.len() as int) == text);
    assert(trims_to(text, text));
    if let Some(s) = r {
        let (a, b) = choose|a: int, b: int|
            #[trigger] element_at(xml@, tag@, a, b) && trims_to(
                xml@.subrange(a + tag@.len() + 2, b),
                s@,
            );
        lemma_first_is_one(xml@, opening(tag@), 0, i, a);
        lemma_first_is_one(xml@, closing(tag@), start, end, b);
        trimming_is_unique(text, text, s@);
    } else {
        let a = choose|a: int|
            #[trigger] first_reads(xml@, opening(tag@), 0, a) && never_reads(
                xml@,
                closing(tag@),
                a + tag@.len() + 2,
            );
        lemma_first_is_one(xml@, opening(tag@), 0, i, a);
    }
}

/// The characters of `<data`.
pub open spec fn data_opening() -> Seq<char> {
    seq!['<', 'd', 'a', 't', 'a']
}

/// The first data tag stands at `i`, the bracket that ends it at `b`, and the first
/// closing tag behind it at `j`.
pub open spec fn data_at(xml: Seq<char>, i: int, b: int, j: int) -> bool {
    &&& first_reads(xml, data_opening(), 0, i)
    &&& first_reads(xml, seq!['>'], i, b)
    &&& first_reads(xml, seq!['<', '/', 'd', 'a', 't', 'a', '>'], b + 1, j)
}

/// The data of an item is what stands behind the bracket that ends the first data
/// tag and before the first closing tag behind it, without the white space at its
/// ends. There is none exactly where one of the three is missing.
pub proof fn the_data_stands_behind_its_tag(xml: &str, r: Option<String>)
    requires
        call_ensures(extract_data_content, (xml,), r),
    ensures
        match r {
            Some(s) => exists|i: int, b: int, j: int|
                #[trigger] data_at(xml@, i, b, j) && trims_to(xml@.subrange(b + 1, j), s@),
            None => {
                ||| never_reads(xml@, data_opening(), 0)
                ||| exists|i: int|
                    #[trigger] first_reads(xml@, data_opening(), 0, i) && never_reads(
                        xml@,
                        seq!['>'],
                        i,
                    )
                ||| exists|i: int, b: int|
                    #[trigger] first_reads(xml@, data_opening(), 0, i) && #[trigger] first_reads(
                        xml@,
                        seq!['>'],
                        i,
                        b,
                    ) && never_reads(xml@, seq!['<', '/', 'd', 'a', 't', 'a', '>'], b + 1)
            },
        },
{
    reveal_strlit("<data");
    reveal_strlit(">");
    reveal_strlit("</data>");
    let close = seq!['<', '/', 'd', 'a', 't', 'a', '>'];
    assert("<data"@ == data_opening());
    assert(">"@ == seq!['>']);
    assert("</data>"@ == close);
    find_is_first(xml@, data_opening(), 0);
    if let Some(i) = crate::text::find(xml@, data_opening()) {
        find_is_first(xml@, seq!['>'], i);
        if let Some(b) = crate::text::find_from(xml@, seq!['>'], i) {
            find_is_first(xml@, close, b + 1);
            assert(first_reads(xml@, data_opening(), 0, i) && first_reads(xml@, seq!['>'], i, b));
            if let Some(j) = crate::text::find_from(xml@, close, b + 1) {
                trim_trims(xml@.subrange(b + 1, j));
                assert(data_at(xml@, i, b, j));
            }
        }
    }
}

// ---------------------------------------------------------------------------
// Hexadecimal codes
// ---------------------------------------------------------------------------
/// The character is a hexadecimal digit of this value, small or capital.
pub open spec fn is_digit(c: char, d: int) -> bool {
    ||| 0 <= d <= 9 && c as int == 48 + d
    ||| 10 <= d <= 15 && (c as int == 97 + d - 10 || c as int == 65 + d - 10)
}

/// The text spells the word as pairs of hexadecimal digits; one more digit may
/// follow.
pub open spec fn spells_hex(text: Seq<char>, word: Seq<char>) -> bool {
    &&& text.len() == 2 * word.len() || text.len() == 2 * word.len() + 1
    &&& forall|i: int|
        0 <= i < word.len() ==> {
            &&& (#[trigger] word[i]) as int <= 255
            &&& is_digit(text[2 * i], word[i] as int / 16)
            &&& is_digit(text[2 * i + 1], word[i] as int % 16)
        }
    &&& text.len() == 2 * word.len() + 1 ==> 0 <= text.last() as int <= 127
}

proof fn lemma_hex(text: Seq<char>, word: Seq<char>)
    requires
        spells_hex(text, word),
    ensures
        hex_text(encode_utf8(text)) == word,
        is_ascii_chars(text),
        in_pairs(text),
{
    assert forall|i: int| 0 <= i < text.len() implies '\0' <= #[trigger] text[i] <= '\u{7f}' by {
        let k: int = i / 2;
        if k < word.len() {
            let w = word[k] as int;
            assert(0 <= w <= 255);
            assert(0 <= w / 16 <= 15 && 0 <= w % 16 <= 15);
            if i % 2 == 0 {
                assert(i == 2 * k);
                assert(is_digit(text[i], w / 16));
            } else {
                assert(i == 2 * k + 1);
                assert(is_digit(text[i], w % 16));
            }
            assert(text[i] as int <= 127);
        } else {
            assert(i == text.len() - 1);
            assert(text[i] as int <= 127);
        }
    }
    is_ascii_chars_encode_utf8(text);
    crate::metadata::ascii_text_is_in_pairs(text);
    let enc = encode_utf8(text);
    let bytes = word.map_values(|c: char| c as u8);
    assert forall|i: int| 0 <= i < bytes.len() implies hex_digit(enc[2 * i]) == Some(
        (#[trigger] bytes[i] / 16) as u8,
    ) && hex_digit(enc[2 * i + 1]) == Some((bytes[i] % 16) as u8) by {
        assert(bytes[i] as int == word[i] as int);
        assert(enc[2 * i] == text[2 * i] as u8);
        assert(enc[2 * i + 1] == text[2 * i + 1] as u8);
    }
    assert(writes_hex(enc, bytes));
    hex_text_reads_hex(enc, bytes);
    assert(bytes.map_values(|b: u8| b as char) =~= word) by {
        assert forall|i: int| 0 <= i < word.len() implies bytes.map_values(|b: u8| b as char)[i]
            == word[i] by {
            assert(bytes[i] as int == word[i] as int);
        }
    }
}

/// Pairs of hexadecimal digits are read as the word that they spell, whether the
/// digits are small or capital; a last digit without a partner changes nothing.
pub proof fn hex_reads_the_word(text: &str, word: Seq<char>, r: String)
    requires
        call_ensures(hex_to_ascii, (text,), r),
        spells_hex(text@, word),
    ensures
        r@ == word,
{
    lemma_hex(text@, word);
}

/// Hexadecimal text is read pair by pair: what a text of whole pairs in front of
/// another is read as stands in front of what the other is read as.
pub proof fn hex_is_read_pair_by_pair(a: Seq<u8>, b: Seq<u8>)
    requires
        a.len() % 2 == 0,
    ensures
        hex_text(a + b) == hex_text(a) + hex_text(b),
    decreases a.len(),
{
    if a.len() == 0 {
        assert(a + b == b);
        assert(hex_text(a) + hex_text(b) == hex_text(b));
    } else {
        hex_is_read_pair_by_pair(a.skip(2), b);
        assert((a + b).skip(2) == a.skip(2) + b);
        assert((a + b)[0] == a[0] && (a + b)[1] == a[1]);
        let rest = hex_text(a.skip(2));
        if let Some(c) = crate::metadata::hex_pair(a[0], a[1]) {
            assert(seq![c as char] + (rest + hex_text(b)) == (seq![c as char] + rest) + hex_text(
                b,
            ));
        }
    }
}

/// The byte is the code of a hexadecimal digit.
pub open spec fn is_digit_code(b: u8) -> bool {
    48 <= b <= 57 || 65 <= b <= 70 || 97 <= b <= 102
}

/// A pair is left out exactly where its second byte is no digit, or its first one
/// neither a digit nor a plus sign.
pub proof fn other_pairs_are_left_out(a: u8, b: u8)
    ensures
        hex_text(seq![a, b]).len() == (if is_digit_code(b) && (is_digit_code(a) || a == 43) {
            1int
        } else {
            0
        }),
{
    let pair = seq![a, b];
    assert(pair[0] == a && pair[1] == b);
    assert(pair.skip(2) == Seq::<u8>::empty());
    assert(hex_text(pair.skip(2)) == Seq::<char>::empty());
    match crate::metadata::hex_pair(a, b) {
        Some(c) => {
            assert(hex_text(pair) == seq![c as char] + Seq::<char>::empty());
        },
        None => {
            assert(hex_text(pair) == Seq::<char>::empty());
        },
    }
}

// ---------------------------------------------------------------------------
// Events
// ---------------------------------------------------------------------------
/// The character is a space or a line break.
pub open spec fn is_break(c: char) -> bool {
    c as int == 32 || c as int == 10 || c as int == 13
}

/// Taking out spaces and line breaks leaves none of them, keeps a text without any
/// as it is, and works on each part of a text for itself.
pub proof fn only_breaks_are_taken_out(
    s: &str,
    r: String,
    a: &str,
    ra: String,
    b: &str,
    rb: String,
)
    requires
        call_ensures(remove_breaks, (s,), r),
        call_ensures(remove_breaks, (a,), ra),
        call_ensures(remove_breaks, (b,), rb),
    ensures
        forall|i: int| 0 <= i < r@.len() ==> !is_break(#[trigger] r@[i]),
        (forall|i: int| 0 <= i < s@.len() ==> !is_break(#[trigger] s@[i])) ==> r@ == s@,
        (forall|i: int| 0 <= i < s@.len() ==> is_break(#[trigger] s@[i])) ==> r@.len() == 0,
        s@ == a@ + b@ ==> r@ == ra@ + rb@,
{
    lemma_breaks(s@);
    if s@ == a@ + b@ {
        lemma_breaks_concat(a@, b@);
    }
}

proof fn lemma_breaks(s: Seq<char>)
    ensures
        forall|i: int|
            0 <= i < without_breaks(s).len() ==> !is_break(#[trigger] without_breaks(s)[i]),
        (forall|i: int| 0 <= i < s.len() ==> !is_break(#[trigger] s[i])) ==> without_breaks(s) == s,
        (forall|i: int| 0 <= i < s.len() ==> is_break(#[trigger] s[i])) ==> without_breaks(s).len()
            == 0,
    decreases s.len(),
{
    reveal(Seq::filter);
    if s.len() > 0 {
        let init = s.drop_last();
        lemma_breaks(init);
        assert forall|i: int| 0 <= i < without_breaks(s).len() implies !is_break(
            #[trigger] without_breaks(s)[i],
        ) by {
            if i < without_breaks(init).len() {
                assert(without_breaks(s)[i] == without_breaks(init)[i]);
            }
        }
        if forall|i: int| 0 <= i < s.len() ==> !is_break(#[trigger] s[i]) {
            assert forall|i: int| 0 <= i < init.len() implies !is_break(#[trigger] init[i]) by {
                assert(init[i] == s[i]);
            }
            assert(!is_break(s[s.len() - 1]));
            assert(init.push(s.last()) == s);
        }
        if forall|i: int| 0 <= i < s.len() ==> is_break(#[trigger] s[i]) {
            assert forall|i: int| 0 <= i < init.len() implies is_break(#[trigger] init[i]) by {
                assert(init[i] == s[i]);
            }
            assert(is_break(s[s.len() - 1]));
        }
    }
}

proof fn lemma_breaks_concat(a: Seq<char>, b: Seq<char>)
    ensures
        without_breaks(a + b) == without_breaks(a) + without_breaks(b),
    decreases b.len(),
{
    reveal(Seq::filter);
    if b.len() == 0 {
        assert(a + b == a);
        assert(without_breaks(a) + without_breaks(b) == without_breaks(a));
    } else {
        lemma_breaks_concat(a, b.drop_last());
        assert((a + b).drop_last() == a + b.drop_last());
        assert((a + b).last() == b.last());
        assert(without_breaks(a + b) == without_breaks(a) + without_breaks(b));
    }
}

/// The kind of the items about the track.
#[verifier::opaque]
pub open spec fn core_word() -> Seq<char> {
    seq!['c', 'o', 'r', 'e']
}

/// The kind of the items about the session.
#[verifier::opaque]
pub open spec fn ssnc_word() -> Seq<char> {
    seq!['s', 's', 'n', 'c']
}

/// The code of the title.
#[verifier::opaque]
pub open spec fn track_word() -> Seq<char> {
    seq!['m', 'i', 'n', 'm']
}

/// The code of the artist.
#[verifier::opaque]
pub open spec fn artist_word() -> Seq<char> {
    seq!['a', 's', 'a', 'r']
}

/// The code of the album.
#[verifier::opaque]
pub open spec fn album_word() -> Seq<char> {
    seq!['a', 's', 'a', 'l']
}

/// The code of the start of playback.
#[verifier::opaque]
pub open spec fn start_word() -> Seq<char> {
    seq!['p', 'b', 'e', 'g']
}

/// The code of the end of playback.
#[verifier::opaque]
pub open spec fn stop_word() -> Seq<char> {
    seq!['p', 'e', 'n', 'd']
}

/// The code of a flush of the stream.
#[verifier::opaque]
pub open spec fn flush_word() -> Seq<char> {
    seq!['p', 'f', 'l', 's']
}

proof fn lemma_words()
    ensures
        "core"@ == core_word(),
        "ssnc"@ == ssnc_word(),
        "minm"@ == track_word(),
        "asar"@ == artist_word(),
        "asal"@ == album_word(),
        "pbeg"@ == start_word(),
        "pend"@ == stop_word(),
        "pfls"@ == flush_word(),
        core_word() != ssnc_word(),
        track_word() != artist_word(),
        track_word() != album_word(),
        artist_word() != album_word(),
        start_word() != stop_word(),
        start_word() != flush_word(),
        stop_word() != flush_word(),
{
    reveal(core_word);
    reveal(ssnc_word);
    reveal(track_word);
    reveal(artist_word);
    reveal(album_word);
    reveal(start_word);
    reveal(stop_word);
    reveal(flush_word);
    reveal_strlit("core");
    reveal_strlit("ssnc");
    reveal_strlit("minm");
    reveal_strlit("asar");
    reveal_strlit("asal");
    reveal_strlit("pbeg");
    reveal_strlit("pend");
    reveal_strlit("pfls");
    assert("core"@ == core_word());
    assert("ssnc"@ == ssnc_word());
    assert("minm"@ == track_word());
    assert("asar"@ == artist_word());
    assert("asal"@ == album_word());
    assert("pbeg"@ == start_word());
    assert("pend"@ == stop_word());
    assert("pfls"@ == flush_word());
    assert(core_word()[0] != ssnc_word()[0]);
    assert(track_word()[0] != artist_word()[0]);
    assert(track_word()[0] != album_word()[0]);
    assert(artist_word()[3] != album_word()[3]);
    assert(start_word()[1] != stop_word()[1]);
    assert(start_word()[1] != flush_word()[1]);
    assert(stop_word()[1] != flush_word()[1]);
}

/// What an item of this kind, code and text announces.
///
/// A track, an artist or an album is announced with exactly the text of the data,
/// but for white space at its ends, and only where there is some text; the start
/// and the stop of playback and a flush need no text. Nothing else is announced.
pub open spec fn announces(
    kind: Seq<char>,
    code: Seq<char>,
    payload: Option<Seq<char>>,
    r: Option<MetadataEvent>,
) -> bool {
    &&& r matches Some(MetadataEvent::Track(s)) ==> kind == core_word() && code == track_word()
        && payload is Some && trims_to(payload->0, s@) && s@.len() > 0
    &&& r matches Some(MetadataEvent::Artist(s)) ==> kind == core_word() && code == artist_word()
        && payload is Some && trims_to(payload->0, s@) && s@.len() > 0
    &&& r matches Some(MetadataEvent::Album(s)) ==> kind == core_word() && code == album_word()
        && payload is Some && trims_to(payload->0, s@) && s@.len() > 0
    &&& r == Some(MetadataEvent::PlaybackStarted) <==> kind == ssnc_word() && code == start_word()
    &&& r == Some(MetadataEvent::PlaybackStopped) <==> kind == ssnc_word() && code == stop_word()
    &&& r == Some(MetadataEvent::StreamFlushed) <==> kind == ssnc_word() && code == flush_word()
    &&& r is None && kind == core_word() && (code == track_word() || code == artist_word() || code
        == album_word()) && payload is Some ==> trims_to(payload->0, Seq::empty())
}

/// What `event_of` makes of the parts of an item is what they announce.
pub proof fn events_are_what_the_parts_announce(
    kind: &str,
    code: &str,
    payload: Option<&str>,
    r: Option<MetadataEvent>,
)
    requires
        call_ensures(event_of, (kind, code, payload), r),
    ensures
        announces(
            kind@,
            code@,
            match payload {
                Some(p) => Some(p@),
                None => None,
            },
            r,
        ),
{
    lemma_words();
    if let Some(p) = payload {
        trim_trims(p@);
        if crate::text::trim(p@).len() == 0 {
            assert(crate::text::trim(p@) == Seq::<char>::empty());
        }
    }
}

/// A title, an artist or an album that neither begins nor ends with white space is
/// announced character for character.
pub proof fn texts_are_announced_as_they_are(
    kind: &str,
    code: &str,
    text: &str,
    r: Option<MetadataEvent>,
)
    requires
        call_ensures(event_of, (kind, code, Some(text)), r),
        kind@ == core_word(),
        text@.len() > 0,
        !is_blank(text@[0]),
        !is_blank(text@[text@.len() - 1]),
    ensures
        code@ == track_word() ==> (r matches Some(MetadataEvent::Track(s)) && s@ == text@),
        code@ == artist_word() ==> (r matches Some(MetadataEvent::Artist(s)) && s@ == text@),
        code@ == album_word() ==> (r matches Some(MetadataEvent::Album(s)) && s@ == text@),
        code@ != track_word() && code@ != artist_word() && code@ != album_word() ==> r is None,
{
    lemma_words();
    lemma_kept(text@);
    let e = crate::metadata::core_event(code@, text@);
    assert(crate::metadata::event_view(r) == e);
}

proof fn lemma_kept(t: Seq<char>)
    requires
        t.len() > 0,
        !is_blank(t[0]),
        !is_blank(t[t.len() - 1]),
    ensures
        crate::text::trim(t) == t,
        !trims_to(t, Seq::<char>::empty()),
{
    assert(t.subrange(0, t.len() as int) == t);
    assert(trimmed_at(t, 0, t.len() as int));
    assert(trims_to(t, t));
    trim_trims(t);
    trimming_is_unique(t, t, crate::text::trim(t));
    if trims_to(t, Seq::<char>::empty()) {
        trimming_is_unique(t, t, Seq::<char>::empty());
    }
}

/// An item whose type and code spell `core` and the code of a title, an artist or an
/// album, and whose data is the base64 of the UTF-8 of a text that neither begins
/// nor ends with white space, announces that text, character for character.
pub proof fn items_announce_their_text(
    item: &str,
    type_hex: String,
    code_hex: String,
    data: String,
    code: Seq<char>,
    data_text: &str,
    clean: String,
    text: Seq<char>,
    r: Option<MetadataEvent>,
)
    requires
        call_ensures(extract_tag_content, (item, "type"), Some(type_hex)),
        call_ensures(extract_tag_content, (item, "code"), Some(code_hex)),
        call_ensures(extract_data_content, (item,), Some(data)),
        spells_hex(type_hex@, core_word()),
        spells_hex(code_hex@, code),
        data_text@ == data@,
        call_ensures(remove_breaks, (data_text,), clean),
        base64_decoded(clean@) == Some(encode_utf8(text)),
        text.len() > 0,
        !is_blank(text[0]),
        !is_blank(text[text.len() - 1]),
        call_ensures(process_metadata_item, (item,), r),
    ensures
        code == track_word() ==> (r matches Some(MetadataEvent::Track(s)) && s@ == text),
        code == artist_word() ==> (r matches Some(MetadataEvent::Artist(s)) && s@ == text),
        code == album_word() ==> (r matches Some(MetadataEvent::Album(s)) && s@ == text),
        code != track_word() && code != artist_word() && code != album_word() ==> r is None,
{
    lemma_hex(type_hex@, core_word());
    lemma_hex(code_hex@, code);
    lemma_words();
    lemma_kept(text);
    encode_utf8_valid_utf8(text);
    encode_utf8_decode_utf8(text);
}

/// An item whose type spells `ssnc` announces the start or the stop of playback or a
/// flush by its code alone, with or without data.
pub proof fn session_items_need_no_text(
    item: &str,
    type_hex: String,
    code_hex: String,
    code: Seq<char>,
    r: Option<MetadataEvent>,
)
    requires
        call_ensures(extract_tag_content, (item, "type"), Some(type_hex)),
        call_ensures(extract_tag_content, (item, "code"), Some(code_hex)),
        spells_hex(type_hex@, ssnc_word()),
        spells_hex(code_hex@, code),
        call_ensures(process_metadata_item, (item,), r),
    ensures
        r == Some(MetadataEvent::PlaybackStarted) <==> code == start_word(),
        r == Some(MetadataEvent::PlaybackStopped) <==> code == stop_word(),
        r == Some(MetadataEvent::StreamFlushed) <==> code == flush_word(),
        code != start_word() && code != stop_word() && code != flush_word() ==> r is None,
{
    lemma_hex(type_hex@, ssnc_word());
    lemma_hex(code_hex@, code);
    lemma_words();
}

/// An item without a type or a code announces nothing, and neither does one of
/// another kind, nor one of the kind `core` without data.
pub proof fn other_items_announce_nothing(
    item: &str,
    type_hex: Option<String>,
    code_hex: Option<String>,
    data: Option<String>,
    kind: Seq<char>,
    r: Option<MetadataEvent>,
)
    requires
        call_ensures(extract_tag_content, (item, "type"), type_hex),
        call_ensures(extract_tag_content, (item, "code"), code_hex),
        call_ensures(extract_data_content, (item,), data),
        call_ensures(process_metadata_item, (item,), r),
    ensures
        type_hex is None || code_hex is None ==> r is None,
        type_hex is Some && spells_hex(type_hex->0@, kind) && kind != core_word() && kind
            != ssnc_word() ==> r is None,
        type_hex is Some && spells_hex(type_hex->0@, core_word()) && data is None ==> r is None,
{
    lemma_words();
    if type_hex is Some && spells_hex(type_hex->0@, kind) {
        lemma_hex(type_hex->0@, kind);
    }
    if type_hex is Some && spells_hex(type_hex->0@, core_word()) {
        lemma_hex(type_hex->0@, core_word());
    }
}

/// An item can be read where its type and code are made of hexadecimal digits.
pub proof fn hex_items_can_be_read(
    item: &str,
    type_hex: String,
    code_hex: String,
    kind: Seq<char>,
    code: Seq<char>,
    r: bool,
)
    requires
        call_ensures(extract_tag_content, (item, "type"), Some(type_hex)),
        call_ensures(extract_tag_content, (item, "code"), Some(code_hex)),
        spells_hex(type_hex@, kind),
        spells_hex(code_hex@, code),
        call_ensures(is_item_readable, (item,), r),
    ensures
        r,
        item_readable(item@),
{
    lemma_hex(type_hex@, kind);
    lemma_hex(code_hex@, code);
}

/// The line of a title, an artist or an album ends with its text, behind a heading
/// that does not depend on it.
pub proof fn lines_show_the_text(a: String, b: String, la: String, lb: String, which: int)
    requires
        0 <= which < 3,
        call_ensures(
            MetadataEvent::line,
            (&(if which == 0 {
                MetadataEvent::Track(a)
            } else if which == 1 {
                MetadataEvent::Artist(a)
            } else {
                MetadataEvent::Album(a)
            }),),
            la,
        ),
        call_ensures(
            MetadataEvent::line,
            (&(if which == 0 {
                MetadataEvent::Track(b)
            } else if which == 1 {
                MetadataEvent::Artist(b)
            } else {
                MetadataEvent::Album(b)
            }),),
            lb,
        ),
    ensures
        la@.len() >= a@.len(),
        la@.skip(la@.len() - a@.len()) == a@,
        lb@.skip(lb@.len() - b@.len()) == b@,
        la@.take(la@.len() - a@.len()) == lb@.take(lb@.len() - b@.len()),
{
}

/// What was announced stands in the published state, and nothing else changes.
pub proof fn announcements_are_published<R>(state: &mut AppState<R>, event: MetadataEvent, r: ())
    requires
        call_ensures(AppState::<R>::note, (state, event), r),
    ensures
        final(state).track@ == (if event is Track {
            event->Track_0@
        } else {
            old(state).track@
        }),
        final(state).artist@ == (if event is Artist {
            event->Artist_0@
        } else {
            old(state).artist@
        }),
        final(state).album@ == (if event is Album {
            event->Album_0@
        } else {
            old(state).album@
        }),
        event is PlaybackStarted ==> final(state).playback@ == seq![
            'P',
            'l',
            'a',
            'y',
            'i',
            'n',
            'g',
        ],
        event is PlaybackStopped ==> final(state).playback@ == seq![
            'S',
            't',
            'o',
            'p',
            'p',
            'e',
            'd',
        ],
        !(event is PlaybackStarted) && !(event is PlaybackStopped) ==> final(state).playback@
            == old(state).playback@,
        final(state).buffer_fill == old(state).buffer_fill,
        final(state).buffer_fill_avg == old(state).buffer_fill_avg,
        final(state).buffer_fill_min == old(state).buffer_fill_min,
        final(state).buffer_fill_max == old(state).buffer_fill_max,
        final(state).resample_ratio == old(state).resample_ratio,
        final(state).chunks_processed == old(state).chunks_processed,
        final(state).output_rate == old(state).output_rate,
        final(state).output_format == old(state).output_format,
{
    reveal_strlit("Playing");
    reveal_strlit("Stopped");
    assert("Playing"@ == seq!['P', 'l', 'a', 'y', 'i', 'n', 'g']);
    assert("Stopped"@ == seq!['S', 't', 'o', 'p', 'p', 'e', 'd']);
}

// ---------------------------------------------------------------------------
// The stream
// ---------------------------------------------------------------------------
/// The characters of `</item>`.
pub open spec fn item_closing() -> Seq<char> {
    seq!['<', '/', 'i', 't', 'e', 'm', '>']
}

proof fn lemma_item_closing()
    ensures
        item_end() == item_closing(),
{
    reveal_strlit("</item>");
    assert("</item>"@ == item_closing());
}

/// The text ends with its only `</item>`.
pub open spec fn closes_once(part: Seq<char>) -> bool {
    first_reads(part, item_closing(), 0, part.len() - 7)
}

/// The parts one after the other.
pub open spec fn in_a_row(parts: Seq<Seq<char>>) -> Seq<char>
    decreases parts.len(),
{
    if parts.len() == 0 {
        Seq::empty()
    } else {
        parts[0] + in_a_row(parts.drop_first())
    }
}

proof fn lemma_in_a_row(parts: Seq<Seq<char>>)
    ensures
        concat(parts) == in_a_row(parts),
    decreases parts.len(),
{
    if parts.len() > 0 {
        lemma_in_a_row(parts.drop_first());
    }
}

proof fn lemma_find_is(s: Seq<char>, pat: Seq<char>, i: int)
    requires
        first_reads(s, pat, 0, i),
    ensures
        crate::text::find(s, pat) == Some(i),
{
    find_is_first(s, pat, 0);
    match crate::text::find(s, pat) {
        Some(j) => lemma_first_is_one(s, pat, 0, i, j),
        None => {
            assert(reads(s, i, pat));
        },
    }
}

/// A stream is cut behind each `</item>`: where what is pending and the new line
/// together are parts that each end with their only closing tag, followed by text
/// without one, exactly these parts come out, in this order, and that text stays.
pub proof fn the_stream_is_cut_behind_its_items(
    b: &mut ItemBuffer,
    line: &str,
    r: Vec<String>,
    parts: Seq<Seq<char>>,
    rest: Seq<char>,
)
    requires
        call_ensures(ItemBuffer::push_line, (b, line), r),
        old(b)@ + line@ == in_a_row(parts) + rest,
        forall|k: int| 0 <= k < parts.len() ==> closes_once(#[trigger] parts[k]),
        never_reads(rest, item_closing(), 0),
    ensures
        r@.len() == parts.len(),
        forall|k: int| 0 <= k < parts.len() ==> (#[trigger] r@[k])@ == parts[k],
        final(b)@ == rest,
{
    lemma_item_closing();
    lemma_in_a_row(parts);
    assert forall|k: int| 0 <= k < parts.len() implies crate::text::find(
        #[trigger] parts[k],
        item_end(),
    ) == Some(parts[k].len() - item_end().len()) by {
        assert(closes_once(parts[k]));
        lemma_find_is(parts[k], item_closing(), parts[k].len() - 7);
    }
    find_is_first(rest, item_closing(), 0);
    if let Some(i) = crate::text::find(rest, item_end()) {
        assert(reads(rest, i, item_closing()));
    }
    items_are_the_closed_parts(parts, rest);
    assert(views(r@) == parts);
    assert forall|k: int| 0 <= k < parts.len() implies (#[trigger] r@[k])@ == parts[k] by {
        assert(views(r@)[k] == r@[k]@);
    }
}

/// It does not matter how the stream is cut into lines: two lines one after the
/// other give what both at once give.
pub proof fn lines_can_be_joined(
    b1: &mut ItemBuffer,
    first: &str,
    r1: Vec<String>,
    b2: &mut ItemBuffer,
    second: &str,
    r2: Vec<String>,
    b: &mut ItemBuffer,
    both: &str,
    r: Vec<String>,
)
    requires
        call_ensures(ItemBuffer::push_line, (b1, first), r1),
        call_ensures(ItemBuffer::push_line, (b2, second), r2),
        call_ensures(ItemBuffer::push_line, (b, both), r),
        old(b)@ == old(b1)@,
        *old(b2) == *final(b1),
        both@ == first@ + second@,
    ensures
        r@.len() == r1@.len() + r2@.len(),
        forall|k: int| 0 <= k < r1@.len() ==> (#[trigger] r@[k])@ == r1@[k]@,
        forall|k: int| 0 <= k < r2@.len() ==> r@[r1@.len() + k]@ == (#[trigger] r2@[k])@,
        final(b)@ == final(b2)@,
{
    let p = old(b1)@;
    items_do_not_depend_on_the_pieces(p + first@, second@);
    assert(p + both@ == p + first@ + second@);
    assert(views(r@) == views(r1@) + views(r2@));
    assert(views(r@).len() == r@.len() && views(r1@).len() == r1@.len() && views(r2@).len()
        == r2@.len());
    assert forall|k: int| 0 <= k < r1@.len() implies (#[trigger] r@[k])@ == r1@[k]@ by {
        assert(views(r@)[k] == views(r1@)[k]);
        assert(views(r@)[k] == r@[k]@ && views(r1@)[k] == r1@[k]@);
    }
    assert forall|k: int| 0 <= k < r2@.len() implies r@[r1@.len() + k]@ == (#[trigger] r2@[k])@ by {
        assert(views(r@)[r1@.len() + k] == views(r2@)[k]);
        assert(views(r@)[r1@.len() + k] == r@[r1@.len() + k]@ && views(r2@)[k] == r2@[k]@);
    }
}

/// A new buffer holds nothing.
pub proof fn a_new_buffer_is_empty(b: ItemBuffer)
    requires
        call_ensures(ItemBuffer::new, (), b),
    ensures
        b@.len() == 0,
{
}

/// The reader treats a line exactly as its buffer does; without a line no item comes
/// out and nothing that is pending is lost, until a new connection starts, with
/// nothing pending.
pub proof fn the_reader_loses_nothing(
    reader: &mut MetadataReader,
    reply: ReaderReply,
    line: &str,
    r: Vec<String>,
    b: &mut ItemBuffer,
    rb: Vec<String>,
)
    requires
        call_ensures(MetadataReader::advance, (reader, reply, line), r),
        call_ensures(ItemBuffer::push_line, (b, line), rb),
        old(b)@ == old(reader).buffer@,
    ensures
        old(reader).step == ReaderStep::ReadLine && reply == ReaderReply::Line ==> {
            &&& r@.len() == rb@.len()
            &&& forall|k: int| 0 <= k < r@.len() ==> (#[trigger] r@[k])@ == rb@[k]@
            &&& final(reader).buffer@ == final(b)@
        },
        old(reader).step == ReaderStep::Open && reply == ReaderReply::Yes ==> r@.len() == 0
            && final(reader).buffer@.len() == 0,
        !(old(reader).step == ReaderStep::ReadLine && reply == ReaderReply::Line) && !(old(
            reader
        ).step == ReaderStep::Open && reply == ReaderReply::Yes) ==> r@.len() == 0 && final(
            reader
        ).buffer@ == old(reader).buffer@,
{
    if old(reader).step == ReaderStep::ReadLine && reply == ReaderReply::Line {
        assert(views(r@) == views(rb@));
        assert(views(r@).len() == r@.len() && views(rb@).len() == rb@.len());
        assert forall|k: int| 0 <= k < r@.len() implies (#[trigger] r@[k])@ == rb@[k]@ by {
            assert(views(r@)[k] == views(rb@)[k]);
        }
    }
}

/// Where the reader goes: it asks before every connection and before every wait
/// within one, and stops exactly on a yes to such a question. It opens a pipe that
/// is there, waits until it can be read, reads a line, and goes on with the
/// connection after a line or where there is none yet. Whatever else comes of a
/// step, it sleeps and starts over.
pub proof fn the_reader_goes_round(
    reader: &mut MetadataReader,
    reply: ReaderReply,
    line: &str,
    r: Vec<String>,
)
    requires
        call_ensures(MetadataReader::advance, (reader, reply, line), r),
    ensures
        final(reader).step == ReaderStep::Stop <==> {
            ||| old(reader).step == ReaderStep::Stop
            ||| old(reader).step == ReaderStep::AskBeforeConnect && reply == ReaderReply::Yes
            ||| old(reader).step == ReaderStep::AskWhileConnected && reply == ReaderReply::Yes
        },
        final(reader).step == ReaderStep::LookForPipe <==> old(reader).step
            == ReaderStep::AskBeforeConnect && reply != ReaderReply::Yes,
        final(reader).step == ReaderStep::Open <==> old(reader).step == ReaderStep::LookForPipe
            && reply == ReaderReply::Yes,
        final(reader).step == ReaderStep::Poll <==> old(reader).step
            == ReaderStep::AskWhileConnected && reply != ReaderReply::Yes,
        final(reader).step == ReaderStep::ReadLine <==> old(reader).step == ReaderStep::Poll
            && reply == ReaderReply::Yes,
        final(reader).step == ReaderStep::AskBeforeConnect <==> old(reader).step
            == ReaderStep::Sleep,
        final(reader).step == ReaderStep::AskWhileConnected <==> {
            ||| old(reader).step == ReaderStep::Open && reply == ReaderReply::Yes
            ||| old(reader).step == ReaderStep::Poll && reply != ReaderReply::Yes
            ||| old(reader).step == ReaderStep::ReadLine && (reply == ReaderReply::Line || reply
                == ReaderReply::WouldBlock)
        },
{
}

/// A reader starts before its first connection, with nothing pending.
pub proof fn a_new_reader_has_not_connected(r: MetadataReader)
    requires
        call_ensures(MetadataReader::new, (), r),
    ensures
        r.step == ReaderStep::AskBeforeConnect,
        r.buffer@.len() == 0,
{
}

/// A text can be read in pairs of bytes where no character is cut by a pair; a text
/// of ASCII characters always can.
pub proof fn ascii_can_be_paired(s: &str, r: bool)
    requires
        call_ensures(can_pair, (s,), r),
    ensures
        r <==> forall|k: int|
            0 <= k && 2 * k <= encode_utf8(s@).len() ==> #[trigger] is_char_boundary(
                encode_utf8(s@),
                2 * k,
            ),
        (forall|i: int| 0 <= i < s@.len() ==> 0 <= #[trigger] s@[i] as int && s@[i] as int <= 127)
            ==> r,
{
    if forall|i: int| 0 <= i < s@.len() ==> 0 <= #[trigger] s@[i] as int && s@[i] as int <= 127 {
        ascii_text_is_in_pairs(s@);
    }
}

} // verus!
