use vstd::prelude::*;

verus! {

/// A name-value pair attached to a message.
#[derive(Debug, Clone, PartialEq, Eq)]
pub struct Tag {
    pub name: String,
    pub value: String,
}

/// What a tag says: its name and its value as text.
pub struct TagView {
    pub name: Seq<char>,
    pub value: Seq<char>,
}

impl View for Tag {
    type V = TagView;

    open spec fn view(&self) -> TagView {
        TagView { name: self.name@, value: self.value@ }
    }
}

/// The views of a list of tags.
pub open spec fn tag_views(tags: Seq<Tag>) -> Seq<TagView> {
    tags.map_values(|t: Tag| t@)
}

impl Tag {
    pub fn new(name: &str, value: &str) -> (tag: Tag)
        ensures
            tag@ == (TagView { name: name@, value: value@ }),
    {
        Tag { name: String::from_str(name), value: String::from_str(value) }
    }
}

/// How a message is to be sent.
#[derive(Debug, Clone, Default)]
pub struct SendMessageOptions {
    /// RSA public key in PKCS#1 DER format; when present, the payload is
    /// encrypted for it.
    pub encrypt_with_rsa: Option<Vec<u8>>,
}

} // verus!
