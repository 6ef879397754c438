//! The track metadata that comes over a pipe: cutting the stream into items,
//! reading an item, and the steps of the reader.

use crate::text;
use base64::Engine;
use vstd::prelude::*;
use vstd::utf8::*;

verus! {

// ---------------------------------------------------------------------------
// Tags
// ---------------------------------------------------------------------------
/// The tag that opens an element.
pub open spec fn open_tag(tag: Seq<char>) -> Seq<char> {
    "<"@ + tag + ">"@
}

/// The tag that closes an element.
pub open spec fn close_tag(tag: Seq<char>) -> Seq<char> {
    "</"@ + tag + ">"@
}

/// The trimmed text between the first opening tag and the closing tag that
/// follows it.
pub open spec fn tag_content(xml: Seq<char>, tag: Seq<char>) -> Option<Seq<char>> {
    match text::find(xml, open_tag(tag)) {
        None => None,
        Some(i) => {
            let start = i + open_tag(tag).len();
            match text::find_from(xml, close_tag(tag), start) {
                None => None,
                Some(end) => Some(text::trim(xml.subrange(start, end))),
            }
        },
    }
}

/// The trimmed text of the data element, whose opening tag may have attributes.
pub open spec fn data_content(xml: Seq<char>) -> Option<Seq<char>> {
    match text::find(xml, "<data"@) {
        None => None,
        Some(i) => match text::find_from(xml, ">"@, i) {
            None => None,
            Some(bracket) => match text::find_from(xml, "</data>"@, bracket + 1) {
                None => None,
                Some(end) => Some(text::trim(xml.subrange(bracket + 1, end))),
            },
        },
    }
}

/// The trimmed text of an element.
pub fn extract_tag_content(xml: &str, tag: &str) -> (r: Option<String>)
    ensures
        match r {
            Some(s) => tag_content(xml@, tag@) == Some(s@),
            None => tag_content(xml@, tag@) is None,
        },
{
    let open = text::joined(text::joined("<", tag).as_str(), ">");
    let close = text::joined(text::joined("</", tag).as_str(), ">");
    let v = text::chars_of(xml);
    let o = text::chars_of(open.as_str());
    let c = text::chars_of(close.as_str());
    let n: usize = v.len();
    proof {
        text::find_is_least(v@, o@, 0);
        assert(n == v@.len());
    }
    match text::search_from(&v, &o, 0) {
        None => None,
        Some(i) => {
            let start: usize = i + o.len();
            proof {
                text::find_is_least(v@, c@, start as int);
            }
            match text::search_from(&v, &c, start) {
                None => None,
                Some(end) => Some(text::trimmed(&v, start, end)),
            }
        },
    }
}

/// The trimmed text of the data element.
pub fn extract_data_content(xml: &str) -> (r: Option<String>)
    ensures
        match r {
            Some(s) => data_content(xml@) == Some(s@),
            None => data_content(xml@) is None,
        },
{
    let v = text::chars_of(xml);
    let o = text::chars_of("<data");
    let b = text::chars_of(">");
    let c = text::chars_of("</data>");
    let n: usize = v.len();
    proof {
        reveal_strlit(">");
        text::find_is_least(v@, o@, 0);
        assert(n == v@.len());
    }
    match text::search_from(&v, &o, 0) {
        None => None,
        Some(i) => {
            proof {
                text::find_is_least(v@, b@, i as int);
            }
            match text::search_from(&v, &b, i) {
                None => None,
                Some(bracket) => {
                    let start: usize = bracket + 1;
                    proof {
                        text::find_is_least(v@, c@, start as int);
                    }
                    match text::search_from(&v, &c, start) {
                        None => None,
                        Some(end) => Some(text::trimmed(&v, start, end)),
                    }
                },
            }
        },
    }
}

// ---------------------------------------------------------------------------
// Hexadecimal codes
// ---------------------------------------------------------------------------
/// The value of a hexadecimal digit.
pub open spec fn hex_digit(b: u8) -> Option<u8> {
    if 48 <= b <= 57 {
        Some((b - 48) as u8)
    } else if 97 <= b <= 102 {
        Some((b - 87) as u8)
    } else if 65 <= b <= 70 {
        Some((b - 55) as u8)
    } else {
        None
    }
}

/// The number that two characters stand for: two digits, or a plus sign and one
/// digit.
pub open spec fn hex_pair(a: u8, b: u8) -> Option<u8> {
    if a == 43 {
        hex_digit(b)
    } else {
        match (hex_digit(a), hex_digit(b)) {
            (Some(x), Some(y)) => Some((16 * x + y) as u8),
            _ => None,
        }
    }
}

/// The text whose character codes stand in the bytes as hexadecimal pairs. A
/// pair that is no number is left out, and so is a last byte without a partner.
pub open spec fn hex_text(bytes: Seq<u8>) -> Seq<char>
    decreases bytes.len(),
{
    if bytes.len() < 2 {
        Seq::empty()
    } else {
        let rest = hex_text(bytes.skip(2));
        match hex_pair(bytes[0], bytes[1]) {
            Some(b) => seq![b as char] + rest,
            None => rest,
        }
    }
}

/// The string can be cut into pairs of bytes without cutting a character.
pub open spec fn in_pairs(s: Seq<char>) -> bool {
    forall|k: int|
        0 <= k && 2 * k <= encode_utf8(s).len() ==> #[trigger] is_char_boundary(
            encode_utf8(s),
            2 * k,
        )
}

/// Whether a string can be cut into pairs of bytes without cutting a character.
pub fn can_pair(s: &str) -> (r: bool)
    ensures
        r == in_pairs(s@),
{
    let n: usize = s.as_bytes().len();
    let mut k: usize = 0;
    while k <= n / 2
        invariant
            n == encode_utf8(s@).len(),
            k <= n / 2 + 1,
            forall|j: int|
                0 <= j < k ==> #[trigger] is_char_boundary(encode_utf8(s@), 2 * j),
        decreases n / 2 + 1 - k,
    {
        if !s.is_char_boundary(2 * k) {
            return false;
        }
        k += 1;
    }
    true
}

fn digit_value(b: u8) -> (r: Option<u8>)
    ensures
        r == hex_digit(b),
        r matches Some(v) ==> v < 16,
{
    if 48 <= b && b <= 57 {
        Some(b - 48)
    } else if 97 <= b && b <= 102 {
        Some(b - 87)
    } else if 65 <= b && b <= 70 {
        Some(b - 55)
    } else {
        None
    }
}

fn pair_value(a: u8, b: u8) -> (r: Option<u8>)
    ensures
        r == hex_pair(a, b),
{
    if a == 43 {
        digit_value(b)
    } else {
        match (digit_value(a), digit_value(b)) {
            (Some(x), Some(y)) => Some(16 * x + y),
            _ => None,
        }
    }
}

/// The text whose character codes a string gives as hexadecimal pairs.
pub fn hex_to_ascii(hex: &str) -> (r: String)
    requires
        in_pairs(hex@),
    ensures
        r@ == hex_text(encode_utf8(hex@)),
{
    let bytes = hex.as_bytes();
    let mut ascii = String::new();
    let mut i: usize = 0;
    proof {
        assert(bytes@.skip(0) == bytes@);
    }
    while i < bytes.len() / 2
        invariant
            bytes@ == encode_utf8(hex@),
            i <= bytes@.len() / 2,
            hex_text(bytes@) == ascii@ + hex_text(bytes@.skip(2 * i)),
        decreases bytes@.len() / 2 - i,
    {
        let ghost before = ascii@;
        let ghost tail = bytes@.skip(2 * i);
        proof {
            assert(tail.skip(2) == bytes@.skip(2 * (i + 1)));
            assert(tail[0] == bytes@[2 * i] && tail[1] == bytes@[2 * i + 1]);
        }
        match pair_value(bytes[2 * i], bytes[2 * i + 1]) {
            Some(b) => {
                ascii.push(b as char);
                proof {
                    assert(before + (seq![b as char] + hex_text(tail.skip(2))) == before.push(
                        b as char,
                    ) + hex_text(tail.skip(2)));
                }
            },
            None => {},
        }
        i += 1;
    }
    proof {
        assert(ascii@ + Seq::<char>::empty() == ascii@);
    }
    ascii
}

// ---------------------------------------------------------------------------
// Decoding the data of an item
// ---------------------------------------------------------------------------
/// What `base64::Engine::decode` with the standard alphabet and canonical
/// padding makes of a text: the bytes, or nothing where the text is not valid.
pub uninterp spec fn base64_decoded(s: Seq<char>) -> Option<Seq<u8>>;

/// What `String::from_utf8_lossy` makes of some bytes.
pub uninterp spec fn lossy_text(bytes: Seq<u8>) -> Seq<char>;

/// Why a text is no valid base64. Nothing is claimed of what is inside.
#[verifier::external_type_specification]
#[verifier::external_body]
pub struct ExDecodeError(base64::DecodeError);

/// Calls `base64::Engine::decode` on the engine `BASE64_STANDARD`. The result is
/// named; it is an error exactly where the name gives nothing.
#[verifier::external_body]
fn base64_decode(s: &str) -> (r: Result<Vec<u8>, base64::DecodeError>)
    ensures
        match r {
            Ok(bytes) => base64_decoded(s@) == Some(bytes@),
            Err(_) => base64_decoded(s@) is None,
        },
{
    base64::prelude::BASE64_STANDARD.decode(s)
}

/// Calls `String::from_utf8_lossy`. The result is named; of valid UTF-8 it is
/// the text that the bytes encode.
#[verifier::external_body]
fn utf8_lossy(bytes: &Vec<u8>) -> (r: String)
    ensures
        r@ == lossy_text(bytes@),
        valid_utf8(bytes@) ==> r@ == decode_utf8(bytes@),
{
    String::from_utf8_lossy(bytes).into_owned()
}

/// The text without spaces and line breaks.
pub open spec fn without_breaks(s: Seq<char>) -> Seq<char> {
    s.filter(|c: char| c != '\n' && c != '\r' && c != ' ')
}

/// Takes spaces and line breaks out of a text.
pub fn remove_breaks(s: &str) -> (r: String)
    ensures
        r@ == without_breaks(s@),
{
    let v = text::chars_of(s);
    let mut r = String::new();
    let mut i: usize = 0;
    let ghost keep = |c: char| c != '\n' && c != '\r' && c != ' ';
    proof {
        reveal(Seq::filter);
        assert(v@.take(0) == Seq::<char>::empty());
    }
    while i < v.len()
        invariant
            i <= v.len(),
            keep == (|c: char| c != '\n' && c != '\r' && c != ' '),
            r@ == v@.take(i as int).filter(keep),
        decreases v.len() - i,
    {
        let c = v[i];
        if c != '\n' && c != '\r' && c != ' ' {
            r.push(c);
        }
        proof {
            reveal(Seq::filter);
            assert(v@.take(i + 1).drop_last() == v@.take(i as int));
            assert(v@.take(i + 1).last() == c);
        }
        i += 1;
    }
    proof {
        assert(v@.take(v@.len() as int) == v@);
    }
    r
}

// ---------------------------------------------------------------------------
// Events
// ---------------------------------------------------------------------------
/// What an item announces, over character sequences.
pub enum EventView {
    Track(Seq<char>),
    Artist(Seq<char>),
    Album(Seq<char>),
    PlaybackStarted,
    PlaybackStopped,
    StreamFlushed,
}

/// What an item announces.
#[derive(Debug)]
pub enum MetadataEvent {
    Track(String),
    Artist(String),
    Album(String),
    PlaybackStarted,
    PlaybackStopped,
    StreamFlushed,
}

impl View for MetadataEvent {
    type V = EventView;

    open spec fn view(&self) -> EventView {
        match self {
            MetadataEvent::Track(s) => EventView::Track(s@),
            MetadataEvent::Artist(s) => EventView::Artist(s@),
            MetadataEvent::Album(s) => EventView::Album(s@),
            MetadataEvent::PlaybackStarted => EventView::PlaybackStarted,
            MetadataEvent::PlaybackStopped => EventView::PlaybackStopped,
            MetadataEvent::StreamFlushed => EventView::StreamFlushed,
        }
    }
}

/// An optional event over character sequences.
pub open spec fn event_view(e: Option<MetadataEvent>) -> Option<EventView> {
    match e {
        Some(e) => Some(e@),
        None => None,
    }
}

/// The event of a code of the kind `core` whose data reads `payload`.
pub open spec fn core_event(code: Seq<char>, payload: Seq<char>) -> Option<EventView> {
    let value = text::trim(payload);
    if value.len() == 0 {
        None
    } else if code == "minm"@ {
        Some(EventView::Track(value))
    } else if code == "asar"@ {
        Some(EventView::Artist(value))
    } else if code == "asal"@ {
        Some(EventView::Album(value))
    } else {
        None
    }
}

/// The event of a code of the kind `ssnc`.
pub open spec fn session_event(code: Seq<char>) -> Option<EventView> {
    if code == "pbeg"@ {
        Some(EventView::PlaybackStarted)
    } else if code == "pend"@ {
        Some(EventView::PlaybackStopped)
    } else if code == "pfls"@ {
        Some(EventView::StreamFlushed)
    } else {
        None
    }
}

/// The event of an item of this kind and code; `payload` is the text of its
/// data, or nothing where the data could not be decoded.
pub open spec fn decoded_event(
    kind: Seq<char>,
    code: Seq<char>,
    payload: Option<Seq<char>>,
) -> Option<EventView> {
    if kind == "core"@ {
        match payload {
            Some(p) => core_event(code, p),
            None => None,
        }
    } else if kind == "ssnc"@ {
        session_event(code)
    } else {
        None
    }
}

/// The text of base64 data, or nothing where it cannot be decoded.
pub open spec fn data_text(data: Seq<char>) -> Option<Seq<char>> {
    match base64_decoded(without_breaks(data)) {
        Some(bytes) => Some(lossy_text(bytes)),
        None => None,
    }
}

/// The event that an item announces. An item without a type or a code announces
/// nothing. An item without data can only be one of the kind `ssnc`, whose codes
/// need none.
pub open spec fn item_event(item: Seq<char>) -> Option<EventView> {
    match (tag_content(item, "type"@), tag_content(item, "code"@)) {
        (Some(t), Some(c)) => match data_content(item) {
            Some(data) => decoded_event(
                hex_text(encode_utf8(t)),
                hex_text(encode_utf8(c)),
                data_text(data),
            ),
            None => if in_pairs(t) && in_pairs(c) {
                decoded_event(hex_text(encode_utf8(t)), hex_text(encode_utf8(c)), None)
            } else {
                None
            },
        },
        _ => None,
    }
}

/// The kind, the code and the text of an item whose data is valid base64 of valid
/// UTF-8.
pub open spec fn item_in_utf8(item: Seq<char>) -> Option<(Seq<char>, Seq<char>, Seq<char>)> {
    match (tag_content(item, "type"@), tag_content(item, "code"@), data_content(item)) {
        (Some(t), Some(c), Some(data)) => match base64_decoded(without_breaks(data)) {
            Some(bytes) if valid_utf8(bytes) => Some(
                (hex_text(encode_utf8(t)), hex_text(encode_utf8(c)), decode_utf8(bytes)),
            ),
            _ => None,
        },
        _ => None,
    }
}

/// The type and the code of an item can be cut into pairs of bytes, or the item
/// lacks one of its three elements.
pub open spec fn item_readable(item: Seq<char>) -> bool {
    match (tag_content(item, "type"@), tag_content(item, "code"@), data_content(item)) {
        (Some(t), Some(c), Some(_)) => in_pairs(t) && in_pairs(c),
        _ => true,
    }
}

/// Whether the type and the code of an item can be read.
pub fn is_item_readable(item: &str) -> (r: bool)
    ensures
        r == item_readable(item@),
{
    match (
        extract_tag_content(item, "type"),
        extract_tag_content(item, "code"),
        extract_data_content(item),
    ) {
        (Some(t), Some(c), Some(_)) => can_pair(t.as_str()) && can_pair(c.as_str()),
        _ => true,
    }
}

/// The event of an item from its kind, its code and the text of its data.
pub fn event_of(kind: &str, code: &str, payload: Option<&str>) -> (r: Option<MetadataEvent>)
    ensures
        event_view(r) == decoded_event(
            kind@,
            code@,
            match payload {
                Some(p) => Some(p@),
                None => None,
            },
        ),
{
    if text::same(kind, "core") {
        match payload {
            Some(p) => {
                let v = text::chars_of(p);
                proof {
                    assert(v@.subrange(0, v@.len() as int) == v@);
                }
                let value = text::trimmed(&v, 0, v.len());
                if value.as_str().is_empty() {
                    None
                } else if text::same(code, "minm") {
                    Some(MetadataEvent::Track(value))
                } else if text::same(code, "asar") {
                    Some(MetadataEvent::Artist(value))
                } else if text::same(code, "asal") {
                    Some(MetadataEvent::Album(value))
                } else {
                    None
                }
            },
            None => None,
        }
    } else if text::same(kind, "ssnc") {
        if text::same(code, "pbeg") {
            Some(MetadataEvent::PlaybackStarted)
        } else if text::same(code, "pend") {
            Some(MetadataEvent::PlaybackStopped)
        } else if text::same(code, "pfls") {
            Some(MetadataEvent::StreamFlushed)
        } else {
            None
        }
    } else {
        None
    }
}

/// Reads an item of the metadata stream.
pub fn process_metadata_item(item: &str) -> (r: Option<MetadataEvent>)
    requires
        item_readable(item@),
    ensures
        event_view(r) == item_event(item@),
        item_in_utf8(item@) matches Some((kind, code, text)) ==> event_view(r) == decoded_event(
            kind,
            code,
            Some(text),
        ),
{
    match (extract_tag_content(item, "type"), extract_tag_content(item, "code")) {
        (Some(t), Some(c)) => match extract_data_content(item) {
            Some(data) => {
                let kind = hex_to_ascii(t.as_str());
                let code = hex_to_ascii(c.as_str());
                let clean = remove_breaks(data.as_str());
                match base64_decode(clean.as_str()) {
                    Ok(bytes) => {
                        let payload = utf8_lossy(&bytes);
                        event_of(kind.as_str(), code.as_str(), Some(payload.as_str()))
                    },
                    Err(_) => event_of(kind.as_str(), code.as_str(), None),
                }
            },
            None => if can_pair(t.as_str()) && can_pair(c.as_str()) {
                let kind = hex_to_ascii(t.as_str());
                let code = hex_to_ascii(c.as_str());
                event_of(kind.as_str(), code.as_str(), None)
            } else {
                None
            },
        },
        _ => None,
    }
}

/// The line that reports an event.
pub open spec fn event_line(e: EventView) -> Seq<char> {
    match e {
        EventView::Track(s) => "\u{1f3b5} Track:  "@ + s,
        EventView::Artist(s) => "\u{1f3a4} Artist: "@ + s,
        EventView::Album(s) => "\u{1f4bf} Album:  "@ + s,
        EventView::PlaybackStarted => "\u{25b6}\u{fe0f} Playback started"@,
        EventView::PlaybackStopped => "\u{23f8} Playback stopped"@,
        EventView::StreamFlushed => "\u{1f501} Stream flushed (Seek/Skip)"@,
    }
}

impl MetadataEvent {
    /// The line that reports the event.
    pub fn line(&self) -> (r: String)
        ensures
            r@ == event_line(self@),
    {
        match self {
            MetadataEvent::Track(s) => text::joined("\u{1f3b5} Track:  ", s.as_str()),
            MetadataEvent::Artist(s) => text::joined("\u{1f3a4} Artist: ", s.as_str()),
            MetadataEvent::Album(s) => text::joined("\u{1f4bf} Album:  ", s.as_str()),
            MetadataEvent::PlaybackStarted => "\u{25b6}\u{fe0f} Playback started".to_owned(),
            MetadataEvent::PlaybackStopped => "\u{23f8} Playback stopped".to_owned(),
            MetadataEvent::StreamFlushed => "\u{1f501} Stream flushed (Seek/Skip)".to_owned(),
        }
    }
}

// ---------------------------------------------------------------------------
// Cutting the stream into items
// ---------------------------------------------------------------------------
/// The tag that closes an item.
pub open spec fn item_end() -> Seq<char> {
    "</item>"@
}

/// Where the first item of the buffer ends, behind its closing tag, if one is
/// complete.
pub open spec fn item_cut(buffer: Seq<char>) -> Option<int> {
    match text::find(buffer, item_end()) {
        Some(i) => Some(i + item_end().len()),
        None => None,
    }
}

/// The complete items of the buffer, in order.
pub open spec fn items(buffer: Seq<char>) -> Seq<Seq<char>>
    decreases buffer.len(),
{
    match item_cut(buffer) {
        Some(cut) if 0 < cut <= buffer.len() => seq![buffer.take(cut)] + items(buffer.skip(cut)),
        _ => Seq::empty(),
    }
}

/// What stays in the buffer behind its complete items.
pub open spec fn remainder(buffer: Seq<char>) -> Seq<char>
    decreases buffer.len(),
{
    match item_cut(buffer) {
        Some(cut) if 0 < cut <= buffer.len() => remainder(buffer.skip(cut)),
        _ => buffer,
    }
}

/// The text of strings, one after the other.
pub open spec fn views(v: Seq<String>) -> Seq<Seq<char>> {
    v.map_values(|s: String| s@)
}

/// The part of the metadata stream that belongs to no complete item yet.
pub struct ItemBuffer {
    pending: Vec<char>,
}

impl View for ItemBuffer {
    type V = Seq<char>;

    closed spec fn view(&self) -> Seq<char> {
        self.pending@
    }
}

proof fn lemma_item_end()
    ensures
        item_end().len() == 7,
{
    reveal_strlit("</item>");
}

proof fn lemma_find_in_suffix(s: Seq<char>, pat: Seq<char>, from: int, i: int)
    requires
        0 <= from <= i,
        from <= s.len(),
    ensures
        match text::find_from(s, pat, i) {
            Some(k) => text::find_from(s.skip(from), pat, i - from) == Some(k - from),
            None => text::find_from(s.skip(from), pat, i - from) is None,
        },
    decreases s.len() - i + 1,
{
    if i + pat.len() <= s.len() {
        assert(s.skip(from).subrange(i - from, i - from + pat.len()) == s.subrange(
            i,
            i + pat.len(),
        ));
        if !text::occurs_at(s, pat, i) {
            lemma_find_in_suffix(s, pat, from, i + 1);
        }
    }
}

impl ItemBuffer {
    /// An empty buffer.
    pub fn new() -> (b: Self)
        ensures
            b@ == Seq::<char>::empty(),
    {
        ItemBuffer { pending: Vec::new() }
    }

    /// Appends a line, and takes out the items that are now complete.
    pub fn push_line(&mut self, line: &str) -> (r: Vec<String>)
        ensures
            views(r@) == items(old(self)@ + line@),
            final(self)@ == remainder(old(self)@ + line@),
    {
        let mut added = text::chars_of(line);
        self.pending.append(&mut added);
        let end = text::chars_of("</item>");
        let ghost whole = self.pending@;
        let mut found: Vec<String> = Vec::new();
        let mut start: usize = 0;
        proof {
            assert(self.pending@.skip(0) == self.pending@);
            lemma_item_end();
            assert(views(found@) == Seq::<Seq<char>>::empty());
        }
        loop
            invariant_except_break
                start <= self.pending.len(),
            invariant
                whole == old(self)@ + line@,
                self.pending@ == whole,
                end@ == item_end(),
                end@.len() == 7,
                items(self.pending@) == views(found@) + items(self.pending@.skip(start as int)),
                remainder(self.pending@) == remainder(self.pending@.skip(start as int)),
            ensures
                start <= self.pending.len(),
                item_cut(self.pending@.skip(start as int)) is None,
            decreases self.pending.len() - start,
        {
            let ghost tail = self.pending@.skip(start as int);
            proof {
                lemma_find_in_suffix(self.pending@, end@, start as int, start as int);
                text::find_is_least(self.pending@, end@, start as int);
            }
            match text::search_from(&self.pending, &end, start) {
                None => {
                    break;
                },
                Some(i) => {
                    let cut: usize = i + end.len();
                    let ghost before = found@;
                    found.push(text::string_of(&self.pending, start, cut));
                    proof {
                        assert(tail.take(cut - start) == self.pending@.subrange(
                            start as int,
                            cut as int,
                        ));
                        assert(tail.skip(cut - start) == self.pending@.skip(cut as int));
                        assert(views(found@) == views(before).push(tail.take(cut - start)));
                        assert(views(before) + (seq![tail.take(cut - start)] + items(
                            self.pending@.skip(cut as int),
                        )) == views(found@) + items(self.pending@.skip(cut as int)));
                    }
                    start = cut;
                },
            }
        }
        self.pending = self.pending.split_off(start);
        proof {
            assert(whole.skip(start as int) == self.pending@);
            assert(views(found@) + Seq::<Seq<char>>::empty() == views(found@));
        }
        found
    }
}

// ---------------------------------------------------------------------------
// What holds of the items and of the hexadecimal codes
// ---------------------------------------------------------------------------
/// The sequences one after the other.
pub open spec fn concat(parts: Seq<Seq<char>>) -> Seq<char>
    decreases parts.len(),
{
    if parts.len() == 0 {
        Seq::empty()
    } else {
        parts[0] + concat(parts.drop_first())
    }
}

/// Cutting loses nothing and changes no order: the items and the remainder, one
/// after the other, are the stream. No complete closing tag stays behind.
pub proof fn items_keep_the_stream(buffer: Seq<char>)
    ensures
        concat(items(buffer)) + remainder(buffer) == buffer,
        text::find(remainder(buffer), item_end()) is None,
    decreases buffer.len(),
{
    lemma_item_end();
    text::find_is_least(buffer, item_end(), 0);
    if let Some(cut) = item_cut(buffer) {
        let rest = buffer.skip(cut);
        items_keep_the_stream(rest);
        assert(items(buffer).drop_first() == items(rest));
        assert(concat(items(buffer)) + remainder(buffer) == buffer.take(cut) + (concat(items(rest))
            + remainder(rest)));
        assert(buffer.take(cut) + rest == buffer);
    } else {
        assert(concat(items(buffer)) + remainder(buffer) == buffer);
    }
}

/// Every item ends with the closing tag, which stands nowhere else in it.
pub proof fn items_end_with_their_tag(buffer: Seq<char>, k: int)
    requires
        0 <= k < items(buffer).len(),
    ensures
        text::find(items(buffer)[k], item_end()) == Some(
            items(buffer)[k].len() - item_end().len(),
        ),
    decreases buffer.len(),
{
    lemma_item_end();
    text::find_is_least(buffer, item_end(), 0);
    let cut = item_cut(buffer)->0;
    if k == 0 {
        let item = buffer.take(cut);
        let i = cut - item_end().len();
        assert(item.subrange(i, cut) == buffer.subrange(i, cut));
        assert(text::occurs_at(item, item_end(), i));
        text::find_is_least(item, item_end(), 0);
        let j = text::find(item, item_end())->0;
        assert(item.subrange(j, j + item_end().len()) == buffer.subrange(
            j,
            j + item_end().len(),
        ));
        assert(text::occurs_at(buffer, item_end(), j));
    } else {
        assert(items(buffer)[k] == items(buffer.skip(cut))[k - 1]);
        items_end_with_their_tag(buffer.skip(cut), k - 1);
    }
}

proof fn lemma_find_in_prefix(a: Seq<char>, b: Seq<char>, pat: Seq<char>, from: int)
    requires
        0 <= from,
        text::find_from(a, pat, from) is Some,
    ensures
        text::find_from(a + b, pat, from) == text::find_from(a, pat, from),
    decreases a.len() - from + 1,
{
    assert((a + b).subrange(from, from + pat.len()) == a.subrange(from, from + pat.len()));
    if !text::occurs_at(a, pat, from) {
        lemma_find_in_prefix(a, b, pat, from + 1);
    }
}

/// It does not matter in which pieces the stream comes: the items of two pieces
/// are those of the first, followed by those of what it left and the second.
pub proof fn items_do_not_depend_on_the_pieces(a: Seq<char>, b: Seq<char>)
    ensures
        items(a + b) == items(a) + items(remainder(a) + b),
        remainder(a + b) == remainder(remainder(a) + b),
    decreases a.len(),
{
    lemma_item_end();
    text::find_is_least(a, item_end(), 0);
    if let Some(cut) = item_cut(a) {
        lemma_find_in_prefix(a, b, item_end(), 0);
        assert((a + b).take(cut) == a.take(cut));
        assert((a + b).skip(cut) == a.skip(cut) + b);
        items_do_not_depend_on_the_pieces(a.skip(cut), b);
        let tail = items(remainder(a) + b);
        assert(seq![a.take(cut)] + (items(a.skip(cut)) + tail) == (seq![a.take(cut)] + items(
            a.skip(cut),
        )) + tail);
    } else {
        assert(items(a) + items(a + b) == items(a + b));
    }
}

/// A stream of parts that each end with their only closing tag, followed by text
/// without one, is cut into exactly these parts, and that text is left.
pub proof fn items_are_the_closed_parts(parts: Seq<Seq<char>>, rest: Seq<char>)
    requires
        forall|k: int|
            0 <= k < parts.len() ==> text::find(#[trigger] parts[k], item_end()) == Some(
                parts[k].len() - item_end().len(),
            ),
        text::find(rest, item_end()) is None,
    ensures
        items(concat(parts) + rest) == parts,
        remainder(concat(parts) + rest) == rest,
    decreases parts.len(),
{
    lemma_item_end();
    let stream = concat(parts) + rest;
    if parts.len() == 0 {
        assert(stream == rest);
    } else {
        let more = concat(parts.drop_first()) + rest;
        assert(stream == parts[0] + more);
        text::find_is_least(parts[0], item_end(), 0);
        lemma_find_in_prefix(parts[0], more, item_end(), 0);
        let cut: int = parts[0].len() as int;
        assert(item_cut(stream) == Some(cut));
        assert(stream.take(cut) == parts[0]);
        assert(stream.skip(cut) == more);
        items_are_the_closed_parts(parts.drop_first(), rest);
        assert(seq![parts[0]] + parts.drop_first() == parts);
    }
}

/// What a search of the part from `from` up to `to` finds, a search of the whole
/// from `from` on finds too.
proof fn lemma_find_within(s: Seq<char>, pat: Seq<char>, from: int, to: int, at: int)
    requires
        0 <= from <= to <= s.len(),
        text::find(s.subrange(from, to), pat) == Some(at),
    ensures
        text::find_from(s, pat, from) == Some(from + at),
{
    let part = s.subrange(from, to);
    assert(part + s.skip(to) == s.skip(from));
    lemma_find_in_prefix(part, s.skip(to), pat, 0);
    lemma_find_in_suffix(s, pat, from, from);
}

/// The text between two tags is read as it stands, but for white space at its
/// ends, where this is the first such opening tag and the first closing tag
/// behind it.
pub proof fn tags_give_back_their_content(
    before: Seq<char>,
    tag: Seq<char>,
    content: Seq<char>,
    after: Seq<char>,
)
    requires
        text::find(before + open_tag(tag), open_tag(tag)) == Some(before.len() as int),
        text::find(content + close_tag(tag), close_tag(tag)) == Some(content.len() as int),
    ensures
        tag_content(before + open_tag(tag) + content + close_tag(tag) + after, tag) == Some(
            text::trim(content),
        ),
{
    let open = open_tag(tag);
    let close = close_tag(tag);
    let xml = before + open + content + close + after;
    let start: int = before.len() as int + open.len();
    let end: int = start + content.len();
    assert(xml.subrange(0, start) == before + open);
    assert(xml.subrange(start, end + close.len()) == content + close);
    assert(xml.subrange(start, end) == content);
    lemma_find_within(xml, open, 0, start, before.len() as int);
    lemma_find_within(xml, close, start, end + close.len(), content.len() as int);
}

/// The first bracket at or after `from` is the one at `to`, where none stands
/// between.
proof fn lemma_find_bracket(s: Seq<char>, from: int, to: int)
    requires
        0 <= from <= to < s.len(),
        s[to] == '>',
        forall|j: int| from <= j < to ==> #[trigger] s[j] != '>',
    ensures
        text::find_from(s, ">"@, from) == Some(to),
{
    reveal_strlit(">");
    assert(s.subrange(to, to + 1) == ">"@);
    assert(text::occurs_at(s, ">"@, to));
    text::find_is_least(s, ">"@, from);
    let found = text::find_from(s, ">"@, from)->0;
    assert(s.subrange(found, found + 1)[0] == s[found]);
}

/// The text of the data element is read as it stands, but for white space at its
/// ends, whatever attributes the element has, where it is the first one and its
/// text ends at the first closing tag.
#[verifier::spinoff_prover]
pub proof fn data_gives_back_its_content(
    before: Seq<char>,
    attributes: Seq<char>,
    content: Seq<char>,
    after: Seq<char>,
)
    requires
        text::find(before + "<data"@, "<data"@) == Some(before.len() as int),
        !attributes.contains('>'),
        text::find(content + "</data>"@, "</data>"@) == Some(content.len() as int),
    ensures
        data_content(
            before + "<data"@ + attributes + ">"@ + content + "</data>"@ + after,
        ) == Some(text::trim(content)),
{
    let open = "<data"@;
    let close = "</data>"@;
    let head = before + open;
    let tail = content + close;
    let xml = before + open + attributes + ">"@ + content + close + after;
    let i: int = before.len() as int;
    let bracket: int = i + open.len() + attributes.len();
    let end: int = bracket + 1 + content.len();
    assert(open == seq!['<', 'd', 'a', 't', 'a'] && ">"@ == seq!['>']) by {
        reveal_strlit("<data");
        reveal_strlit(">");
    }
    assert(xml.subrange(0, head.len() as int) == head);
    lemma_find_within(xml, open, 0, head.len() as int, i);
    assert forall|j: int| i <= j < bracket implies #[trigger] xml[j] != '>' by {
        if j < head.len() {
            assert(xml[j] == open[j - i]);
        } else {
            assert(xml[j] == attributes[j - head.len()]);
            assert(attributes.contains(attributes[j - head.len()]));
        }
    }
    assert(xml[bracket] == '>');
    lemma_find_bracket(xml, i, bracket);
    assert(xml.subrange(bracket + 1, end + close.len()) == tail);
    assert(xml.subrange(bracket + 1, end) == content);
    lemma_find_within(xml, close, bracket + 1, end + close.len(), content.len() as int);
}

/// The text holds the bytes as hexadecimal pairs, in small letters or capitals;
/// one more byte without a partner may follow.
pub open spec fn writes_hex(text: Seq<u8>, bytes: Seq<u8>) -> bool {
    &&& text.len() / 2 == bytes.len()
    &&& forall|i: int|
        0 <= i < bytes.len() ==> hex_digit(text[2 * i]) == Some((#[trigger] bytes[i] / 16) as u8)
            && hex_digit(text[2 * i + 1]) == Some((bytes[i] % 16) as u8)
}

/// Reading the hexadecimal form of some bytes gives the characters with those
/// codes, and a last byte without a partner changes nothing.
pub proof fn hex_text_reads_hex(text: Seq<u8>, bytes: Seq<u8>)
    requires
        writes_hex(text, bytes),
    ensures
        hex_text(text) == bytes.map_values(|b: u8| b as char),
    decreases bytes.len(),
{
    if bytes.len() > 0 {
        let b = bytes[0];
        let rest = bytes.drop_first();
        assert forall|i: int| 0 <= i < rest.len() implies hex_digit(text.skip(2)[2 * i]) == Some(
            (#[trigger] rest[i] / 16) as u8,
        ) && hex_digit(text.skip(2)[2 * i + 1]) == Some((rest[i] % 16) as u8) by {
            assert(rest[i] == bytes[i + 1]);
            assert(text.skip(2)[2 * i] == text[2 * (i + 1)]);
            assert(text.skip(2)[2 * i + 1] == text[2 * (i + 1) + 1]);
        }
        hex_text_reads_hex(text.skip(2), rest);
        let first: int = 0;
        assert(text[2 * first] == text[0] && text[2 * first + 1] == text[1]);
        assert(hex_pair(text[0], text[1]) == Some(b));
        assert(bytes.map_values(|b: u8| b as char) == seq![b as char] + rest.map_values(
            |b: u8| b as char,
        ));
    } else {
        assert(hex_text(text) == bytes.map_values(|b: u8| b as char));
    }
}

/// A text of ASCII characters can be cut into pairs.
pub proof fn ascii_text_is_in_pairs(s: Seq<char>)
    requires
        is_ascii_chars(s),
    ensures
        in_pairs(s),
{
    let bytes = encode_utf8(s);
    encode_utf8_valid_utf8(s);
    is_ascii_chars_encode_utf8(s);
    assert forall|k: int| 0 <= k && 2 * k <= bytes.len() implies #[trigger] is_char_boundary(
        bytes,
        2 * k,
    ) by {
        is_char_boundary_start_end_of_seq(bytes);
        if 2 * k < bytes.len() {
            assert('\0' <= s[2 * k] <= '\u{7f}');
            is_char_boundary_iff_not_is_continuation_byte(bytes, 2 * k);
        }
    }
}

// ---------------------------------------------------------------------------
// The steps of the reader
// ---------------------------------------------------------------------------
/// What the reader does next.
#[derive(Clone, Copy, Debug, PartialEq, Eq, Structural)]
pub enum ReaderStep {
    /// Ask whether the program is shutting down, before a connection.
    AskBeforeConnect,
    /// Ask whether the pipe exists.
    LookForPipe,
    /// Open the pipe.
    Open,
    /// Ask whether the program is shutting down, within a connection.
    AskWhileConnected,
    /// Wait until the pipe is readable, for a limited time.
    Poll,
    /// Read one line.
    ReadLine,
    /// Sleep for a second.
    Sleep,
    /// End.
    Stop,
}

/// What came of a step.
#[derive(Clone, Copy, Debug, PartialEq, Eq, Structural)]
pub enum ReaderReply {
    /// The answer to a question; the pipe was opened, or it became readable.
    Yes,
    /// The opposite.
    No,
    /// A line was read.
    Line,
    /// The writer closed the pipe.
    EndOfFile,
    /// There is nothing to read yet.
    WouldBlock,
    /// Reading failed.
    Failed,
}

/// The step that follows. After a sleep the reader starts over, whatever the
/// reply; a reply that is no answer counts as `No`.
pub open spec fn step_after(step: ReaderStep, reply: ReaderReply) -> ReaderStep {
    let yes = reply == ReaderReply::Yes;
    match step {
        ReaderStep::AskBeforeConnect => if yes {
            ReaderStep::Stop
        } else {
            ReaderStep::LookForPipe
        },
        ReaderStep::LookForPipe => if yes {
            ReaderStep::Open
        } else {
            ReaderStep::Sleep
        },
        ReaderStep::Open => if yes {
            ReaderStep::AskWhileConnected
        } else {
            ReaderStep::Sleep
        },
        ReaderStep::AskWhileConnected => if yes {
            ReaderStep::Stop
        } else {
            ReaderStep::Poll
        },
        ReaderStep::Poll => if yes {
            ReaderStep::ReadLine
        } else {
            ReaderStep::AskWhileConnected
        },
        ReaderStep::ReadLine => if reply == ReaderReply::Line || reply == ReaderReply::WouldBlock {
            ReaderStep::AskWhileConnected
        } else {
            ReaderStep::Sleep
        },
        ReaderStep::Sleep => ReaderStep::AskBeforeConnect,
        ReaderStep::Stop => ReaderStep::Stop,
    }
}

/// The reader of the metadata pipe: its next step, and what it has read since
/// it was last connected and not yet cut into items.
pub struct MetadataReader {
    pub step: ReaderStep,
    pub buffer: ItemBuffer,
}

impl MetadataReader {
    /// A reader that has not connected yet.
    pub fn new() -> (r: Self)
        ensures
            r.step == ReaderStep::AskBeforeConnect,
            r.buffer@ == Seq::<char>::empty(),
    {
        MetadataReader { step: ReaderStep::AskBeforeConnect, buffer: ItemBuffer::new() }
    }

    /// Takes what came of the current step, with the line if one was read, and
    /// moves to the next step. Gives the items that the line completed. A new
    /// connection starts with an empty buffer.
    pub fn advance(&mut self, reply: ReaderReply, line: &str) -> (r: Vec<String>)
        ensures
            final(self).step == step_after(old(self).step, reply),
            match (old(self).step, reply) {
                (ReaderStep::ReadLine, ReaderReply::Line) => {
                    &&& views(r@) == items(old(self).buffer@ + line@)
                    &&& final(self).buffer@ == remainder(old(self).buffer@ + line@)
                },
                (ReaderStep::Open, ReaderReply::Yes) => {
                    &&& r@.len() == 0
                    &&& final(self).buffer@ == Seq::<char>::empty()
                },
                _ => r@.len() == 0 && final(self).buffer == old(self).buffer,
            },
    {
        let step = self.step;
        let yes = reply == ReaderReply::Yes;
        let mut found: Vec<String> = Vec::new();
        self.step = match step {
            ReaderStep::AskBeforeConnect => if yes {
                ReaderStep::Stop
            } else {
                ReaderStep::LookForPipe
            },
            ReaderStep::LookForPipe => if yes {
                ReaderStep::Open
            } else {
                ReaderStep::Sleep
            },
            ReaderStep::Open => if yes {
                self.buffer = ItemBuffer::new();
                ReaderStep::AskWhileConnected
            } else {
                ReaderStep::Sleep
            },
            ReaderStep::AskWhileConnected => if yes {
                ReaderStep::Stop
            } else {
                ReaderStep::Poll
            },
            ReaderStep::Poll => if yes {
                ReaderStep::ReadLine
            } else {
                ReaderStep::AskWhileConnected
            },
            ReaderStep::ReadLine => match reply {
                ReaderReply::Line => {
                    found = self.buffer.push_line(line);
                    ReaderStep::AskWhileConnected
                },
                ReaderReply::WouldBlock => ReaderStep::AskWhileConnected,
                _ => ReaderStep::Sleep,
            },
            ReaderStep::Sleep => ReaderStep::AskBeforeConnect,
            ReaderStep::Stop => ReaderStep::Stop,
        };
        found
    }
}

/// The reader asks whether to shut down at least at every fourth step, and an
/// answer of yes ends it; once it has ended, it stays so.
pub proof fn reader_obeys_shutdown(
    step: ReaderStep,
    r1: ReaderReply,
    r2: ReaderReply,
    r3: ReaderReply,
)
    ensures
        step_after(ReaderStep::AskBeforeConnect, ReaderReply::Yes) == ReaderStep::Stop,
        step_after(ReaderStep::AskWhileConnected, ReaderReply::Yes) == ReaderStep::Stop,
        step_after(ReaderStep::Stop, r1) == ReaderStep::Stop,
        asks_or_ended(step) || asks_or_ended(step_after(step, r1)) || asks_or_ended(
            step_after(step_after(step, r1), r2),
        ) || asks_or_ended(step_after(step_after(step_after(step, r1), r2), r3)),
{
}

/// The step is a question about shutting down, or the end.
pub open spec fn asks_or_ended(step: ReaderStep) -> bool {
    step == ReaderStep::AskBeforeConnect || step == ReaderStep::AskWhileConnected || step
        == ReaderStep::Stop
}

} // verus!
