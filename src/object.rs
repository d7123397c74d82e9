//! Records of a bucket listing.
use vstd::prelude::*;

verus! {

/// The mathematical value of an [`Object`].
pub struct ObjectView {
    pub key: Seq<char>,
    pub last_modified: Seq<char>,
    pub size: usize,
    pub etag: Seq<char>,
    pub object_type: Seq<char>,
    pub storage_class: Seq<char>,
    pub owner_id: Seq<char>,
    pub owner_display_name: Seq<char>,
}

/// One object of a bucket listing.
#[derive(Clone, Debug)]
pub struct Object {
    key: String,
    last_modified: String,
    size: usize,
    etag: String,
    object_type: String,
    storage_class: String,
    owner_id: String,
    owner_display_name: String,
}

impl View for Object {
    type V = ObjectView;

    closed spec fn view(&self) -> ObjectView {
        ObjectView {
            key: self.key@,
            last_modified: self.last_modified@,
            size: self.size,
            etag: self.etag@,
            object_type: self.object_type@,
            storage_class: self.storage_class@,
            owner_id: self.owner_id@,
            owner_display_name: self.owner_display_name@,
        }
    }
}

impl Object {
    pub fn new(
        key: String,
        last_modified: String,
        size: usize,
        etag: String,
        object_type: String,
        storage_class: String,
        owner_id: String,
        owner_display_name: String,
    ) -> (r: Self)
        ensures
            r@ == (ObjectView {
                key: key@,
                last_modified: last_modified@,
                size,
                etag: etag@,
                object_type: object_type@,
                storage_class: storage_class@,
                owner_id: owner_id@,
                owner_display_name: owner_display_name@,
            }),
    {
        Object { key, last_modified, size, etag, object_type, storage_class, owner_id, owner_display_name }
    }

    pub fn key(&self) -> (r: &str)
        ensures
            r@ == self@.key,
    {
        self.key.as_str()
    }

    pub fn last_modified(&self) -> (r: &str)
        ensures
            r@ == self@.last_modified,
    {
        self.last_modified.as_str()
    }

    pub fn size(&self) -> (r: usize)
        ensures
            r == self@.size,
    {
        self.size
    }

    pub fn etag(&self) -> (r: &str)
        ensures
            r@ == self@.etag,
    {
        self.etag.as_str()
    }

    pub fn object_type(&self) -> (r: &str)
        ensures
            r@ == self@.object_type,
    {
        self.object_type.as_str()
    }

    pub fn storage_class(&self) -> (r: &str)
        ensures
            r@ == self@.storage_class,
    {
        self.storage_class.as_str()
    }

    pub fn owner_id(&self) -> (r: &str)
        ensures
            r@ == self@.owner_id,
    {
        self.owner_id.as_str()
    }

    pub fn owner_display_name(&self) -> (r: &str)
        ensures
            r@ == self@.owner_display_name,
    {
        self.owner_display_name.as_str()
    }
}


/// The mathematical value of a [`ListObjects`].
pub struct ListObjectsView {
    pub bucket_name: Seq<char>,
    pub delimiter: Seq<char>,
    pub prefix: Seq<char>,
    pub marker: Seq<char>,
    pub max_keys: Seq<char>,
    pub is_truncated: bool,
    pub objects: Seq<ObjectView>,
}

/// A decoded bucket listing: its paging fields and its objects in document order.
#[derive(Clone, Debug)]
pub struct ListObjects {
    bucket_name: String,
    delimiter: String,
    prefix: String,
    marker: String,
    max_keys: String,
    is_truncated: bool,
    objects: Vec<Object>,
}

impl View for ListObjects {
    type V = ListObjectsView;

    closed spec fn view(&self) -> ListObjectsView {
        ListObjectsView {
            bucket_name: self.bucket_name@,
            delimiter: self.delimiter@,
            prefix: self.prefix@,
            marker: self.marker@,
            max_keys: self.max_keys@,
            is_truncated: self.is_truncated,
            objects: views_of(self.objects@),
        }
    }
}

/// The values of a sequence of objects.
pub open spec fn views_of(objects: Seq<Object>) -> Seq<ObjectView> {
    objects.map_values(|o: Object| o@)
}

impl ListObjects {
    pub fn new(
        bucket_name: String,
        delimiter: String,
        prefix: String,
        marker: String,
        max_keys: String,
        is_truncated: bool,
        objects: Vec<Object>,
    ) -> (r: Self)
        ensures
            r@ == (ListObjectsView {
                bucket_name: bucket_name@,
                delimiter: delimiter@,
                prefix: prefix@,
                marker: marker@,
                max_keys: max_keys@,
                is_truncated,
                objects: views_of(objects@),
            }),
    {
        ListObjects { bucket_name, delimiter, prefix, marker, max_keys, is_truncated, objects }
    }

    pub fn bucket_name(&self) -> (r: &str)
        ensures
            r@ == self@.bucket_name,
    {
        self.bucket_name.as_str()
    }

    pub fn delimiter(&self) -> (r: &str)
        ensures
            r@ == self@.delimiter,
    {
        self.delimiter.as_str()
    }

    pub fn prefix(&self) -> (r: &str)
        ensures
            r@ == self@.prefix,
    {
        self.prefix.as_str()
    }

    pub fn marker(&self) -> (r: &str)
        ensures
            r@ == self@.marker,
    {
        self.marker.as_str()
    }

    pub fn max_keys(&self) -> (r: &str)
        ensures
            r@ == self@.max_keys,
    {
        self.max_keys.as_str()
    }

    pub fn is_truncated(&self) -> (r: bool)
        ensures
            r == self@.is_truncated,
    {
        self.is_truncated
    }

    pub fn objects(&self) -> (r: &Vec<Object>)
        ensures
            views_of(r@) == self@.objects,
    {
        &self.objects
    }
}

} // verus!
