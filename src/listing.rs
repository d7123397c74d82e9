//! The streaming decoder of bucket listings: a forward-only state machine
//! over the elements of the listing document.
use vstd::prelude::*;
use vstd::string::StringSliceAdditionalSpecFns;

use crate::error::OssError;
use crate::object::{views_of, ListObjects, ListObjectsView, Object, ObjectView};

verus! {

/// What the decoder is fed, in document order.
pub enum ListingEvent {
    /// A start tag whose content is not captured as text.
    Open(Vec<u8>),
    /// An end tag.
    Close(Vec<u8>),
    /// A text field: its tag name and the text it encloses.
    Field(Vec<u8>, String),
}

/// The mathematical value of a [`ListingEvent`].
pub enum EventView {
    Open(Seq<u8>),
    Close(Seq<u8>),
    Field(Seq<u8>, Seq<char>),
}

impl View for ListingEvent {
    type V = EventView;

    open spec fn view(&self) -> EventView {
        match self {
            ListingEvent::Open(n) => EventView::Open(n@),
            ListingEvent::Close(n) => EventView::Close(n@),
            ListingEvent::Field(n, t) => EventView::Field(n@, t@),
        }
    }
}

/// The state of the decoder: the bucket-level fields seen so far, the
/// finished objects, the object being filled, and the current scope.
pub struct DecoderView {
    pub bucket_name: Seq<char>,
    pub prefix: Seq<char>,
    pub marker: Seq<char>,
    pub max_keys: Seq<char>,
    pub delimiter: Seq<char>,
    pub is_truncated: bool,
    pub objects: Seq<ObjectView>,
    pub scratch: ObjectView,
    pub in_contents: bool,
    pub in_owner: bool,
}

/// Whether a tag name is the given literal name.
pub open spec fn tag_is(name: Seq<u8>, lit: &str) -> bool {
    name == lit.spec_bytes()
}

/// The object record with every field empty and a size of zero.
pub open spec fn empty_object() -> ObjectView {
    ObjectView {
        key: Seq::empty(),
        last_modified: Seq::empty(),
        size: 0,
        etag: Seq::empty(),
        object_type: Seq::empty(),
        storage_class: Seq::empty(),
        owner_id: Seq::empty(),
        owner_display_name: Seq::empty(),
    }
}

/// The state before any event.
pub open spec fn initial_state() -> DecoderView {
    DecoderView {
        bucket_name: Seq::empty(),
        prefix: Seq::empty(),
        marker: Seq::empty(),
        max_keys: Seq::empty(),
        delimiter: Seq::empty(),
        is_truncated: false,
        objects: Seq::empty(),
        scratch: empty_object(),
        in_contents: false,
        in_owner: false,
    }
}

/// Whether a character is an ASCII decimal digit.
pub open spec fn is_digit(c: char) -> bool {
    '0' <= c && c <= '9'
}

/// The value of a string of decimal digits.
pub open spec fn digits_value(s: Seq<char>) -> int
    decreases s.len(),
{
    if s.len() == 0 {
        0
    } else {
        digits_value(s.drop_last()) * 10 + (s.last() as int - '0' as int)
    }
}

/// The unsigned integer that a text denotes in decimal: an optional `+`,
/// then at least one digit, with a value that fits in `usize`.
pub open spec fn usize_text(s: Seq<char>) -> Option<usize> {
    let d = if s.len() > 0 && s[0] == '+' { s.drop_first() } else { s };
    if d.len() > 0 && (forall|i: int| 0 <= i < d.len() ==> is_digit(#[trigger] d[i])) && digits_value(d)
        <= usize::MAX {
        Some(digits_value(d) as usize)
    } else {
        None
    }
}

/// The tag names whose text the decoder captures.
pub open spec fn is_text_field(n: Seq<u8>) -> bool {
    tag_is(n, "Name") || tag_is(n, "Prefix") || tag_is(n, "Marker") || tag_is(n, "MaxKeys")
        || tag_is(n, "Delimiter") || tag_is(n, "IsTruncated") || tag_is(n, "Key") || tag_is(
        n,
        "LastModified",
    ) || tag_is(n, "ETag") || tag_is(n, "Type") || tag_is(n, "Size") || tag_is(n, "StorageClass")
        || tag_is(n, "ID") || tag_is(n, "DisplayName")
}

/// A text field seen outside any object: it sets a bucket-level field.
pub open spec fn bucket_field(d: DecoderView, n: Seq<u8>, t: Seq<char>) -> DecoderView {
    if tag_is(n, "Name") {
        DecoderView { bucket_name: t, ..d }
    } else if tag_is(n, "Prefix") {
        DecoderView { prefix: t, ..d }
    } else if tag_is(n, "Marker") {
        DecoderView { marker: t, ..d }
    } else if tag_is(n, "MaxKeys") {
        DecoderView { max_keys: t, ..d }
    } else if tag_is(n, "Delimiter") {
        DecoderView { delimiter: t, ..d }
    } else if tag_is(n, "IsTruncated") {
        DecoderView { is_truncated: t == "true"@, ..d }
    } else {
        d
    }
}

/// A text field seen inside an object: it sets a field of the object being
/// filled; `None` where a size is not a decimal number.
pub open spec fn object_field(d: DecoderView, n: Seq<u8>, t: Seq<char>) -> Option<DecoderView> {
    let o = d.scratch;
    if tag_is(n, "Key") {
        Some(DecoderView { scratch: ObjectView { key: t, ..o }, ..d })
    } else if tag_is(n, "LastModified") {
        Some(DecoderView { scratch: ObjectView { last_modified: t, ..o }, ..d })
    } else if tag_is(n, "ETag") {
        Some(DecoderView { scratch: ObjectView { etag: t, ..o }, ..d })
    } else if tag_is(n, "Type") {
        Some(DecoderView { scratch: ObjectView { object_type: t, ..o }, ..d })
    } else if tag_is(n, "StorageClass") {
        Some(DecoderView { scratch: ObjectView { storage_class: t, ..o }, ..d })
    } else if tag_is(n, "Size") {
        match usize_text(t) {
            Some(v) => Some(DecoderView { scratch: ObjectView { size: v, ..o }, ..d }),
            None => None,
        }
    } else if d.in_owner && tag_is(n, "ID") {
        Some(DecoderView { scratch: ObjectView { owner_id: t, ..o }, ..d })
    } else if d.in_owner && tag_is(n, "DisplayName") {
        Some(DecoderView { scratch: ObjectView { owner_display_name: t, ..o }, ..d })
    } else {
        Some(d)
    }
}

/// One transition of the decoder; `None` where the listing is malformed.
pub open spec fn step(d: DecoderView, e: EventView) -> Option<DecoderView> {
    match e {
        EventView::Open(n) => if tag_is(n, "Contents") {
            Some(DecoderView { in_contents: true, in_owner: false, scratch: empty_object(), ..d })
        } else if tag_is(n, "Owner") && d.in_contents {
            Some(DecoderView { in_owner: true, ..d })
        } else {
            Some(d)
        },
        EventView::Close(n) => if tag_is(n, "Contents") && d.in_contents {
            Some(
                DecoderView {
                    objects: d.objects.push(d.scratch),
                    in_contents: false,
                    in_owner: false,
                    ..d
                },
            )
        } else if tag_is(n, "Owner") {
            Some(DecoderView { in_owner: false, ..d })
        } else {
            Some(d)
        },
        EventView::Field(n, t) => if d.in_contents {
            object_field(d, n, t)
        } else {
            Some(bucket_field(d, n, t))
        },
    }
}

/// The state after a sequence of events, from the initial state.
pub open spec fn run(evs: Seq<EventView>) -> Option<DecoderView>
    decreases evs.len(),
{
    if evs.len() == 0 {
        Some(initial_state())
    } else {
        match run(evs.drop_last()) {
            Some(d) => step(d, evs.last()),
            None => None,
        }
    }
}

/// The listing that a final state stands for.
pub open spec fn listing_of(d: DecoderView) -> ListObjectsView {
    ListObjectsView {
        bucket_name: d.bucket_name,
        delimiter: d.delimiter,
        prefix: d.prefix,
        marker: d.marker,
        max_keys: d.max_keys,
        is_truncated: d.is_truncated,
        objects: d.objects,
    }
}

/// The listing that a whole event sequence decodes to; `None` where it is malformed.
pub open spec fn decode(evs: Seq<EventView>) -> Option<ListObjectsView> {
    match run(evs) {
        Some(d) => Some(listing_of(d)),
        None => None,
    }
}

/// Relies on `str::parse::<usize>`: an optional `+` and decimal digits whose
/// value fits, and nothing else, give a number.
#[verifier::external_body]
fn parse_usize(s: &str) -> (r: Option<usize>)
    ensures
        r == usize_text(s@),
{
    s.parse::<usize>().ok()
}

/// Whether a tag name is the given literal name.
pub fn name_is(name: &Vec<u8>, lit: &str) -> (r: bool)
    ensures
        r == tag_is(name@, lit),
{
    let b = lit.as_bytes();
    if name.len() != b.len() {
        return false;
    }
    let mut i: usize = 0;
    while i < b.len()
        invariant
            name@.len() == b@.len(),
            b@ == lit.spec_bytes(),
            i <= b@.len(),
            forall|j: int| 0 <= j < i ==> name@[j] == b@[j],
        decreases b@.len() - i,
    {
        if name[i] != b[i] {
            return false;
        }
        i = i + 1;
    }
    proof {
        assert(name@ =~= b@);
    }
    true
}

/// Whether the text of a tag is captured by the decoder.
pub fn text_field(name: &Vec<u8>) -> (r: bool)
    ensures
        r == is_text_field(name@),
{
    name_is(name, "Name") || name_is(name, "Prefix") || name_is(name, "Marker") || name_is(
        name,
        "MaxKeys",
    ) || name_is(name, "Delimiter") || name_is(name, "IsTruncated") || name_is(name, "Key")
        || name_is(name, "LastModified") || name_is(name, "ETag") || name_is(name, "Type")
        || name_is(name, "Size") || name_is(name, "StorageClass") || name_is(name, "ID")
        || name_is(name, "DisplayName")
}

/// The streaming decoder of a bucket listing.
pub struct ListingDecoder {
    bucket_name: String,
    prefix: String,
    marker: String,
    max_keys: String,
    delimiter: String,
    is_truncated: bool,
    objects: Vec<Object>,
    key: String,
    last_modified: String,
    size: usize,
    etag: String,
    object_type: String,
    storage_class: String,
    owner_id: String,
    owner_display_name: String,
    in_contents: bool,
    in_owner: bool,
}

impl View for ListingDecoder {
    type V = DecoderView;

    closed spec fn view(&self) -> DecoderView {
        DecoderView {
            bucket_name: self.bucket_name@,
            prefix: self.prefix@,
            marker: self.marker@,
            max_keys: self.max_keys@,
            delimiter: self.delimiter@,
            is_truncated: self.is_truncated,
            objects: views_of(self.objects@),
            scratch: ObjectView {
                key: self.key@,
                last_modified: self.last_modified@,
                size: self.size,
                etag: self.etag@,
                object_type: self.object_type@,
                storage_class: self.storage_class@,
                owner_id: self.owner_id@,
                owner_display_name: self.owner_display_name@,
            },
            in_contents: self.in_contents,
            in_owner: self.in_owner,
        }
    }
}

impl ListingDecoder {
    /// A decoder that has seen nothing yet.
    pub fn new() -> (r: Self)
        ensures
            r@ == initial_state(),
    {
        let r = ListingDecoder {
            bucket_name: String::new(),
            prefix: String::new(),
            marker: String::new(),
            max_keys: String::new(),
            delimiter: String::new(),
            is_truncated: false,
            objects: Vec::new(),
            key: String::new(),
            last_modified: String::new(),
            size: 0,
            etag: String::new(),
            object_type: String::new(),
            storage_class: String::new(),
            owner_id: String::new(),
            owner_display_name: String::new(),
            in_contents: false,
            in_owner: false,
        };
        proof {
            assert(views_of(r.objects@) =~= Seq::<ObjectView>::empty());
        }
        r
    }

    fn start_object(&mut self)
        ensures
            final(self)@ == (DecoderView {
                in_contents: true,
                in_owner: false,
                scratch: empty_object(),
                ..old(self)@
            }),
    {
        self.key = String::new();
        self.last_modified = String::new();
        self.size = 0;
        self.etag = String::new();
        self.object_type = String::new();
        self.storage_class = String::new();
        self.owner_id = String::new();
        self.owner_display_name = String::new();
        self.in_contents = true;
        self.in_owner = false;
    }

    fn end_object(&mut self)
        ensures
            final(self)@ == (DecoderView {
                objects: old(self)@.objects.push(old(self)@.scratch),
                in_contents: false,
                in_owner: false,
                ..old(self)@
            }),
    {
        let o = Object::new(
            self.key.clone(),
            self.last_modified.clone(),
            self.size,
            self.etag.clone(),
            self.object_type.clone(),
            self.storage_class.clone(),
            self.owner_id.clone(),
            self.owner_display_name.clone(),
        );
        let ghost before = self.objects@;
        self.objects.push(o);
        proof {
            assert(views_of(self.objects@) =~= views_of(before).push(o@));
        }
        self.in_contents = false;
        self.in_owner = false;
    }

    fn set_bucket_field(&mut self, n: &Vec<u8>, t: String)
        ensures
            final(self)@ == bucket_field(old(self)@, n@, t@),
    {
        if name_is(n, "Name") {
            self.bucket_name = t;
        } else if name_is(n, "Prefix") {
            self.prefix = t;
        } else if name_is(n, "Marker") {
            self.marker = t;
        } else if name_is(n, "MaxKeys") {
            self.max_keys = t;
        } else if name_is(n, "Delimiter") {
            self.delimiter = t;
        } else if name_is(n, "IsTruncated") {
            self.is_truncated = t == "true".to_owned();
        }
    }

    fn set_object_field(&mut self, n: &Vec<u8>, t: String) -> (r: Result<(), OssError>)
        ensures
            match object_field(old(self)@, n@, t@) {
                Some(d) => r is Ok && final(self)@ == d,
                None => r == Err::<(), OssError>(OssError::MalformedListing),
            },
    {
        if name_is(n, "Key") {
            self.key = t;
        } else if name_is(n, "LastModified") {
            self.last_modified = t;
        } else if name_is(n, "ETag") {
            self.etag = t;
        } else if name_is(n, "Type") {
            self.object_type = t;
        } else if name_is(n, "StorageClass") {
            self.storage_class = t;
        } else if name_is(n, "Size") {
            match parse_usize(t.as_str()) {
                Some(v) => self.size = v,
                None => return Err(OssError::MalformedListing),
            }
        } else if self.in_owner && name_is(n, "ID") {
            self.owner_id = t;
        } else if self.in_owner && name_is(n, "DisplayName") {
            self.owner_display_name = t;
        }
        Ok(())
    }

    /// Takes one event in document order.
    pub fn feed(&mut self, e: &ListingEvent) -> (r: Result<(), OssError>)
        ensures
            match step(old(self)@, e@) {
                Some(d) => r is Ok && final(self)@ == d,
                None => r == Err::<(), OssError>(OssError::MalformedListing),
            },
    {
        match e {
            ListingEvent::Open(n) => {
                if name_is(n, "Contents") {
                    self.start_object();
                } else if name_is(n, "Owner") && self.in_contents {
                    self.in_owner = true;
                }
                Ok(())
            },
            ListingEvent::Close(n) => {
                if name_is(n, "Contents") && self.in_contents {
                    self.end_object();
                } else if name_is(n, "Owner") {
                    self.in_owner = false;
                }
                Ok(())
            },
            ListingEvent::Field(n, t) => {
                if self.in_contents {
                    self.set_object_field(n, t.clone())
                } else {
                    self.set_bucket_field(n, t.clone());
                    Ok(())
                }
            },
        }
    }

    /// The listing assembled from what was fed.
    pub fn finish(self) -> (r: ListObjects)
        ensures
            r@ == listing_of(self@),
    {
        ListObjects::new(
            self.bucket_name,
            self.delimiter,
            self.prefix,
            self.marker,
            self.max_keys,
            self.is_truncated,
            self.objects,
        )
    }
}

/// Decodes a whole sequence of listing events.
pub fn decode_events(events: &Vec<ListingEvent>) -> (r: Result<ListObjects, OssError>)
    ensures
        match decode(events@.map_values(|e: ListingEvent| e@)) {
            Some(l) => r is Ok && r->Ok_0@ == l,
            None => r == Err::<ListObjects, OssError>(OssError::MalformedListing),
        },
{
    let ghost evs = events@.map_values(|e: ListingEvent| e@);
    let mut dec = ListingDecoder::new();
    let n = events.len();
    let mut i: usize = 0;
    while i < n
        invariant
            n == evs.len(),
            n == events@.len(),
            evs == events@.map_values(|e: ListingEvent| e@),
            i <= n,
            run(evs.take(i as int)) == Some(dec@),
        decreases n - i,
    {
        proof {
            assert(evs.take(i + 1).drop_last() =~= evs.take(i as int));
        }
        match dec.feed(&events[i]) {
            Ok(()) => {},
            Err(err) => {
                proof {
                    lemma_run_stays_none(evs, i + 1);
                }
                return Err(err);
            },
        }
        i = i + 1;
    }
    proof {
        assert(evs.take(n as int) =~= evs);
    }
    Ok(dec.finish())
}

/// Once the decoder has failed on a prefix, every longer prefix fails too.
proof fn lemma_run_stays_none(evs: Seq<EventView>, k: int)
    requires
        0 <= k <= evs.len(),
        run(evs.take(k)) is None,
    ensures
        run(evs) is None,
    decreases evs.len() - k,
{
    if k < evs.len() {
        assert(evs.take(k + 1).drop_last() =~= evs.take(k));
        lemma_run_stays_none(evs, k + 1);
    } else {
        assert(evs.take(k) =~= evs);
    }
}

} // verus!
