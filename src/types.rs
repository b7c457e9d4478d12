use vstd::prelude::*;
use vstd::utf8::encode_utf8;

verus! {

/// The content of an item, as a mathematical value.
pub enum ItemView {
    Text(Seq<char>),
    Image(Seq<char>, Seq<char>),
}

/// A clipboard item that can be synced between devices.
pub enum ClipboardItem {
    /// Plain text content.
    Text(String),
    /// Image data: the base64 text of the encoded image and its MIME type.
    Image { data: String, mime_type: String },
}

/// The standard base64 alphabet with padding, applied to `b`.
pub uninterp spec fn base64_standard_encoding(b: Seq<u8>) -> Seq<char>;

/// What standard base64 decoding gives for `s`: the bytes, or `None` where `s`
/// is not valid base64.
pub uninterp spec fn base64_standard_decoding(s: Seq<char>) -> Option<Seq<u8>>;

/// Relies on base64's `Engine::encode` with the `STANDARD` engine: the text
/// depends on the bytes alone, no bytes give no text, and decoding the text
/// with the same engine gives the bytes back.
#[verifier::external_body]
fn base64_encode(data: &[u8]) -> (r: String)
    ensures
        r@ == base64_standard_encoding(data@),
        data@.len() == 0 ==> r@.len() == 0,
        base64_standard_decoding(r@) == Some(data@),
{
    base64::Engine::encode(&base64::engine::general_purpose::STANDARD, data)
}

/// Relies on base64's `Engine::decode` with the `STANDARD` engine: the outcome
/// depends on the text alone.
#[verifier::external_body]
fn base64_decode(s: &str) -> (r: Option<Vec<u8>>)
    ensures
        r matches Some(v) ==> base64_standard_decoding(s@) == Some(v@),
        r is None ==> base64_standard_decoding(s@) is None,
{
    base64::Engine::decode(&base64::engine::general_purpose::STANDARD, s).ok()
}

impl View for ClipboardItem {
    type V = ItemView;

    open spec fn view(&self) -> ItemView {
        match self {
            ClipboardItem::Text(s) => ItemView::Text(s@),
            ClipboardItem::Image { data, mime_type } => ItemView::Image(data@, mime_type@),
        }
    }
}

/// The size of an item's content: its bytes of text, or the bytes of its
/// base64 text and of its MIME type.
pub open spec fn item_size(item: ClipboardItem) -> nat {
    match item {
        ClipboardItem::Text(s) => encode_utf8(s@).len(),
        ClipboardItem::Image { data, mime_type } => encode_utf8(data@).len()
            + encode_utf8(mime_type@).len(),
    }
}

impl ClipboardItem {
    /// A text item holding `content`.
    pub fn text(content: String) -> (r: ClipboardItem)
        ensures
            r == ClipboardItem::Text(content),
    {
        ClipboardItem::Text(content)
    }

    /// An image item whose data is the base64 text of `data`.
    pub fn image(data: Vec<u8>, mime_type: String) -> (r: ClipboardItem)
        ensures
            r@ == ItemView::Image(base64_standard_encoding(data@), mime_type@),
            r matches ClipboardItem::Image { data: d, .. } && base64_standard_decoding(d@) == Some(data@),
    {
        let encoded = base64_encode(data.as_slice());
        ClipboardItem::Image { data: encoded, mime_type }
    }

    /// The size of the item in bytes: text length, or base64 length plus MIME
    /// type length.
    pub fn size(&self) -> (r: usize)
        requires
            item_size(*self) <= usize::MAX,
        ensures
            r == item_size(*self),
    {
        match self {
            ClipboardItem::Text(s) => s.as_str().len(),
            ClipboardItem::Image { data, mime_type } => data.as_str().len() + mime_type.as_str().len(),
        }
    }

    /// The decoded bytes of an image item; `None` for text or invalid base64.
    pub fn decode_image_data(&self) -> (r: Option<Vec<u8>>)
        ensures
            match *self {
                ClipboardItem::Text(_) => r is None,
                ClipboardItem::Image { data, .. } => match base64_standard_decoding(data@) {
                    Some(b) => r matches Some(v) && v@ == b,
                    None => r is None,
                },
            },
    {
        match self {
            ClipboardItem::Image { data, .. } => base64_decode(data.as_str()),
            ClipboardItem::Text(_) => None,
        }
    }
}

impl Clone for ClipboardItem {
    fn clone(&self) -> (r: ClipboardItem)
        ensures
            r == *self,
    {
        match self {
            ClipboardItem::Text(s) => ClipboardItem::Text(s.clone()),
            ClipboardItem::Image { data, mime_type } => ClipboardItem::Image {
                data: data.clone(),
                mime_type: mime_type.clone(),
            },
        }
    }
}

impl PartialEq for ClipboardItem {
    fn eq(&self, other: &ClipboardItem) -> (r: bool)
        ensures
            r == (self@ == other@),
    {
        match self {
            ClipboardItem::Text(a) => match other {
                ClipboardItem::Text(b) => *a == *b,
                _ => false,
            },
            ClipboardItem::Image { data: a, mime_type: am } => match other {
                ClipboardItem::Image { data: b, mime_type: bm } => {
                    let same_data = *a == *b;
                    let same_type = *am == *bm;
                    same_data && same_type
                },
                _ => false,
            },
        }
    }
}

impl vstd::std_specs::cmp::PartialEqSpecImpl for ClipboardItem {
    open spec fn obeys_eq_spec() -> bool {
        true
    }

    open spec fn eq_spec(&self, other: &ClipboardItem) -> bool {
        self@ == other@
    }
}

/// A clipboard item with the time it was sent and, once it has passed the
/// relay, the device that sent it.
pub struct ClipboardEntry {
    pub item: ClipboardItem,
    /// Milliseconds since the Unix epoch.
    pub timestamp: u64,
    pub device_id: Option<String>,
}

#[verifier::external_type_specification]
#[verifier::external_body]
pub struct ExSystemTime(std::time::SystemTime);

/// Relies on `SystemTime::now`: the clock's reading, whatever it is.
#[verifier::external_body]
fn system_now() -> std::time::SystemTime {
    std::time::SystemTime::now()
}

/// Relies on `SystemTime::duration_since(UNIX_EPOCH)`: the time since the
/// epoch, or `None` for a reading before it.
#[verifier::external_body]
fn since_epoch(t: &std::time::SystemTime) -> Option<std::time::Duration> {
    t.duration_since(std::time::UNIX_EPOCH).ok()
}

/// Relies on `Duration::as_millis`: the whole milliseconds of `d`.
#[verifier::external_body]
fn whole_millis(d: &std::time::Duration) -> u128 {
    d.as_millis()
}

/// A timestamp from a clock reading: its milliseconds since the Unix epoch,
/// capped at `u64::MAX`, or 0 for a reading before the epoch (`None`).
pub fn millis_from(reading: Option<u128>) -> (r: u64)
    ensures
        r == match reading {
            Some(m) => if m <= u64::MAX { m as u64 } else { u64::MAX },
            None => 0,
        },
{
    match reading {
        Some(m) => {
            if m <= u64::MAX as u128 {
                m as u64
            } else {
                u64::MAX
            }
        },
        None => 0,
    }
}

/// The current time in milliseconds since the Unix epoch, as `millis_from`
/// reads the clock.
pub(crate) fn now_millis() -> u64 {
    let reading = match since_epoch(&system_now()) {
        Some(d) => Some(whole_millis(&d)),
        None => None,
    };
    millis_from(reading)
}

impl ClipboardEntry {
    /// An entry for `item`, stamped with the current time and no device.
    pub fn new(item: ClipboardItem) -> (r: ClipboardEntry)
        ensures
            r.item == item,
            r.device_id is None,
    {
        let timestamp = now_millis();
        ClipboardEntry::at(item, timestamp)
    }

    /// An entry for `item` with the given timestamp and no device.
    pub fn at(item: ClipboardItem, timestamp: u64) -> (r: ClipboardEntry)
        ensures
            r == (ClipboardEntry { item, timestamp, device_id: None }),
    {
        ClipboardEntry { item, timestamp, device_id: None }
    }

    /// The same entry, marked as sent by `device_id`.
    pub fn with_device_id(self, device_id: String) -> (r: ClipboardEntry)
        ensures
            r == (ClipboardEntry { device_id: Some(device_id), ..self }),
    {
        let mut e = self;
        e.device_id = Some(device_id);
        e
    }
}

impl Clone for ClipboardEntry {
    fn clone(&self) -> (r: ClipboardEntry)
        ensures
            r == *self,
    {
        let device_id = match &self.device_id {
            Some(d) => Some(d.clone()),
            None => None,
        };
        ClipboardEntry { item: self.item.clone(), timestamp: self.timestamp, device_id }
    }
}

} // verus!
