//! Eligibility rules for inbound messages: a message is left alone (never
//! tracked for deletion) when its text carries a hashtag from the configured
//! exclusion list. Hashtag positions are reported by the source protocol in
//! UTF-16 code units, so the check runs over the UTF-16 encoding of the text —
//! slicing the raw bytes instead would silently mismatch on multi-byte text.

use vstd::prelude::*;

use crate::storage::{Message, Storage, StorageError};

verus! {

/// The UTF-16 encoding of a string, code unit by code unit. The encoding is a
/// function of the characters alone; [`to_utf16`] computes it.
pub uninterp spec fn utf16_of(s: Seq<char>) -> Seq<u16>;

/// Relies on `str::encode_utf16`: the UTF-16 encoding of the string, a
/// function of its characters alone; an empty string encodes to nothing.
#[verifier::external_body]
pub fn to_utf16(val: &str) -> (r: Vec<u16>)
    ensures
        r@ == utf16_of(val@),
        val@.len() == 0 ==> r@.len() == 0,
{
    val.encode_utf16().collect()
}

/// What kind of annotation an entity is; only hashtags take part in the
/// exclusion rule.
#[derive(Clone, Copy, PartialEq, Eq, Structural, Debug)]
pub enum EntityKind {
    Hashtag,
    Other,
}

/// One annotation of a message's text: a span given by the source protocol as
/// an offset and a length, both counted in UTF-16 code units and covering the
/// leading `#` of a hashtag.
#[derive(Clone, Copy, PartialEq, Eq, Structural, Debug)]
pub struct MessageEntity {
    pub kind: EntityKind,
    pub offset: i64,
    pub length: i64,
}

/// An inbound message's content, as far as the exclusion rule cares: a text
/// with its annotations, or something else (stickers, photos, ...), which
/// carries no hashtag.
pub enum MessageContent {
    Text { data: String, entities: Vec<MessageEntity> },
    Other,
}

/// The code units an entity covers, without its leading delimiter character.
pub open spec fn entity_slice(data16: Seq<u16>, e: MessageEntity) -> Seq<u16> {
    data16.subrange(e.offset + 1, e.offset + e.length)
}

/// Whether entity `e` is a hashtag lying inside the text whose body — the
/// span after the leading `#` — equals one of `tags` exactly (case matters).
pub open spec fn entity_marks_exclusion(
    data16: Seq<u16>,
    e: MessageEntity,
    tags: Seq<Seq<u16>>,
) -> bool {
    &&& e.kind == EntityKind::Hashtag
    &&& 0 <= e.offset
    &&& 1 <= e.length
    &&& e.offset + e.length <= data16.len()
    &&& exists|j: int| 0 <= j < tags.len() && tags[j] == entity_slice(data16, e)
}

/// Whether any entity of the text marks it as excluded.
pub open spec fn hashtag_present(
    data16: Seq<u16>,
    entities: Seq<MessageEntity>,
    tags: Seq<Seq<u16>>,
) -> bool {
    exists|i: int| 0 <= i < entities.len() && entity_marks_exclusion(data16, entities[i], tags)
}

/// Whether the content is excluded from tracking: only a text can carry one
/// of the configured hashtags.
pub open spec fn content_excluded(c: MessageContent, tags: Seq<Seq<u16>>) -> bool {
    match c {
        MessageContent::Text { data, entities } => hashtag_present(
            utf16_of(data@),
            entities@,
            tags,
        ),
        MessageContent::Other => false,
    }
}

/// Does `tag` stand in `data` exactly at `start .. start + tag.len()`?
fn subrange_matches(data: &Vec<u16>, start: usize, tag: &Vec<u16>) -> (r: bool)
    requires
        start + tag@.len() <= data@.len(),
    ensures
        r == (data@.subrange(start as int, start as int + tag@.len() as int) == tag@),
{
    let total = data.len();
    let m = tag.len();
    let mut k: usize = 0;
    while k < m
        invariant
            total == data@.len(),
            m == tag@.len(),
            0 <= k <= m,
            start + m <= total,
            forall|t: int| 0 <= t < k ==> data@[start + t] == tag@[t],
        decreases m - k,
    {
        if data[start + k] != tag[k] {
            proof {
                assert(data@.subrange(start as int, start as int + tag@.len() as int)[k as int]
                    == data@[start + k]);
            }
            return false;
        }
        k += 1;
    }
    proof {
        assert(data@.subrange(start as int, start as int + tag@.len() as int) =~= tag@);
    }
    true
}

/// Does entity `e` mark the text `data_utf16` as excluded by one of
/// `hashtags`?
fn entity_excluded(data_utf16: &Vec<u16>, e: MessageEntity, hashtags: &Vec<Vec<u16>>) -> (r: bool)
    ensures
        r == entity_marks_exclusion(data_utf16@, e, hashtags.deep_view()),
{
    let ghost tags = hashtags.deep_view();
    let total = data_utf16.len();
    if !(e.kind == EntityKind::Hashtag && e.offset >= 0 && e.length >= 1) {
        return false;
    }
    if !((e.offset as u128) + (e.length as u128) <= (total as u128)) {
        return false;
    }
    let start: usize = e.offset as usize + 1;
    let body_len: usize = (e.length - 1) as usize;
    let t = hashtags.len();
    let mut j: usize = 0;
    while j < t
        invariant
            t == hashtags@.len(),
            tags == hashtags.deep_view(),
            tags.len() == hashtags@.len(),
            0 <= j <= t,
            total == data_utf16@.len(),
            e.kind == EntityKind::Hashtag,
            0 <= e.offset,
            1 <= e.length,
            e.offset + e.length <= total,
            start == e.offset + 1,
            body_len == e.length - 1,
            forall|l: int| 0 <= l < j ==> tags[l] != entity_slice(data_utf16@, e),
        decreases t - j,
    {
        let h = &hashtags[j];
        proof {
            assert(tags[j as int] == hashtags@[j as int].deep_view());
            assert(hashtags@[j as int].deep_view() =~= hashtags@[j as int]@);
        }
        if h.len() == body_len {
            if subrange_matches(data_utf16, start, h) {
                proof {
                    assert(entity_slice(data_utf16@, e) == data_utf16@.subrange(
                        start as int,
                        start as int + h@.len() as int,
                    ));
                    assert(tags[j as int] == entity_slice(data_utf16@, e));
                }
                return true;
            }
        } else {
            proof {
                assert(entity_slice(data_utf16@, e).len() == e.length - 1);
                assert(tags[j as int] != entity_slice(data_utf16@, e));
            }
        }
        j += 1;
    }
    false
}

/// Whether the message's text carries any hashtag of the exclusion list
/// `hashtags` (each given as its UTF-16 body, without the leading `#`).
pub fn are_hashtags_present(content: &MessageContent, hashtags: &Vec<Vec<u16>>) -> (r: bool)
    ensures
        r == content_excluded(*content, hashtags.deep_view()),
{
    match content {
        MessageContent::Text { data, entities } => text_excluded(data, entities, hashtags),
        MessageContent::Other => false,
    }
}

/// Does the text `data`, annotated by `entities`, carry any of `hashtags`?
fn text_excluded(data: &String, entities: &Vec<MessageEntity>, hashtags: &Vec<Vec<u16>>) -> (r:
    bool)
    ensures
        r == hashtag_present(utf16_of(data@), entities@, hashtags.deep_view()),
{
    let ghost tags = hashtags.deep_view();
    let data_utf16 = to_utf16(data.as_str());
    let n = entities.len();
    let mut i: usize = 0;
    while i < n
        invariant
            n == entities@.len(),
            0 <= i <= n,
            data_utf16@ == utf16_of(data@),
            tags == hashtags.deep_view(),
            forall|k: int| 0 <= k < i ==> !entity_marks_exclusion(data_utf16@, entities@[k], tags),
        decreases n - i,
    {
        let e = entities[i];
        if entity_excluded(&data_utf16, e, hashtags) {
            proof {
                assert(entities@[i as int] == e);
                assert(hashtag_present(utf16_of(data@), entities@, tags));
            }
            return true;
        }
        i += 1;
    }
    false
}

/// The ingestion decision for one inbound message: if its content carries an
/// excluded hashtag nothing is stored and the message is reported ineligible
/// (`Ok(false)`); otherwise it is recorded in the store (`Ok(true)`). A
/// failure of the medium stores nothing and must be surfaced by the caller —
/// a silently dropped message could never be swept. An excluded message is
/// decided before the medium is touched, so it is never an error.
pub fn ingest_message(
    storage: &mut Storage,
    content: &MessageContent,
    message: Message,
    hashtags: &Vec<Vec<u16>>,
) -> (r: Result<bool, StorageError>)
    requires
        message.date <= i64::MAX as u64,
    ensures
        final(storage).spec_lifetime() == old(storage).spec_lifetime(),
        content_excluded(*content, hashtags.deep_view()) ==> r is Ok,
        (match r {
            Ok(true) => !content_excluded(*content, hashtags.deep_view()) && final(storage).rows()
                == old(storage).rows().push(message),
            Ok(false) => content_excluded(*content, hashtags.deep_view()) && final(storage).rows()
                == old(storage).rows(),
            Err(_) => final(storage).rows() == old(storage).rows(),
        }),
{
    if are_hashtags_present(content, hashtags) {
        return Ok(false);
    }
    match storage.add(message) {
        Ok(()) => Ok(true),
        Err(e) => Err(e),
    }
}

} // verus!
