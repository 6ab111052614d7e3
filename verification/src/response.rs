//! What the remote endpoints answer, and what the cache keeps of it.

use crate::value::{raw_view, RawCacheValue, RawView};
use vstd::prelude::*;
use vstd::string::*;

verus! {

/// The answer of the token validation endpoint.
pub struct Validate {
    pub client_id: String,
}

/// The answer of the user lookup endpoint.
pub struct User {
    pub data: Vec<UserData>,
}

pub struct UserData {
    pub id: String,
}

/// The answer of the global emote catalog.
pub struct GlobalEmotes {
    pub data: Vec<GlobalEmoteData>,
}

/// One emote of the catalog. `images` pairs a size with the address of the
/// image in that size. A catalog lists no size twice (`sizes_distinct`);
/// should one do so, the first pair with a size is the one that counts.
pub struct GlobalEmoteData {
    pub name: String,
    pub id: String,
    pub images: Vec<(String, String)>,
}

/// The address listed for `size`: that of the first pair with this size.
pub open spec fn listed(images: Seq<(String, String)>, size: Seq<char>) -> Option<Seq<char>>
    decreases images.len(),
{
    if images.len() == 0 {
        None
    } else if images[0].0@ == size {
        Some(images[0].1@)
    } else {
        listed(images.drop_first(), size)
    }
}

/// No pair before place `upto` has the size.
pub open spec fn unlisted_before(
    images: Seq<(String, String)>,
    size: Seq<char>,
    upto: int,
) -> bool {
    forall|j: int| 0 <= j < upto ==> (#[trigger] images[j]).0@ != size
}

/// The address listed for a size is that of the first pair with the size.
pub proof fn lemma_listed(images: Seq<(String, String)>, size: Seq<char>, upto: int)
    requires
        0 <= upto <= images.len(),
        unlisted_before(images, size, upto),
    ensures
        listed(images, size) == listed(images.skip(upto), size),
        upto < images.len() && images[upto].0@ == size ==> listed(images, size) == Some(
            images[upto].1@,
        ),
        upto == images.len() ==> listed(images, size) is None,
    decreases upto,
{
    if upto > 0 {
        lemma_listed(images, size, upto - 1);
        let rest = images.skip(upto - 1);
        assert(rest.drop_first() =~= images.skip(upto));
    } else {
        assert(images.skip(0) =~= images);
    }
}

/// No size is listed twice.
pub open spec fn sizes_distinct(images: Seq<(String, String)>) -> bool {
    forall|i: int, j: int|
        0 <= i < j < images.len() ==> (#[trigger] images[i]).0@ != (#[trigger] images[j]).0@
}

/// Where no size is listed twice, the address listed for a size is that of
/// the one pair with the size, wherever it stands.
pub proof fn lemma_listed_by_size(images: Seq<(String, String)>, size: Seq<char>, at: int)
    requires
        sizes_distinct(images),
        0 <= at < images.len(),
        images[at].0@ == size,
    ensures
        listed(images, size) == Some(images[at].1@),
{
    assert forall|j: int| 0 <= j < at implies (#[trigger] images[j]).0@ != size by {
        assert(images[j].0@ != images[at].0@);
    }
    lemma_listed(images, size, at);
}

impl GlobalEmoteData {
    /// The emote lists no size twice.
    pub open spec fn well_formed(&self) -> bool {
        sizes_distinct(self.images@)
    }
}

impl Validate {
    /// What is cached of a validation: the client identifier.
    pub fn into_raw(self) -> (raw: RawCacheValue)
        ensures
            raw@ == RawView::ClientId(self.client_id@),
    {
        RawCacheValue::ClientId(self.client_id)
    }
}

impl User {
    /// What is cached of a user lookup: the identifier of the first user
    /// listed. There is nothing to cache where no user is listed.
    pub fn to_raw(&self) -> (raw: Option<RawCacheValue>)
        ensures
            raw_view(raw) == if self.data@.len() > 0 {
                Some(RawView::UserId(self.data@[0].id@))
            } else {
                None
            },
    {
        if self.data.len() > 0 {
            Some(RawCacheValue::UserId(self.data[0].id.clone()))
        } else {
            None
        }
    }
}

impl GlobalEmoteData {
    /// The address of the image in the given size, if the catalog lists one.
    pub fn image_url(&self, size: &str) -> (url: Option<&str>)
        ensures
            match url {
                Some(u) => listed(self.images@, size@) == Some(u@),
                None => listed(self.images@, size@) is None,
            },
    {
        let wanted = String::from_str(size);
        let mut i: usize = 0;
        while i < self.images.len()
            invariant
                i <= self.images.len(),
                wanted@ == size@,
                unlisted_before(self.images@, size@, i as int),
            decreases self.images.len() - i,
        {
            if self.images[i].0 == wanted {
                proof {
                    lemma_listed(self.images@, size@, i as int);
                }
                return Some(self.images[i].1.as_str());
            }
            i = i + 1;
        }
        proof {
            lemma_listed(self.images@, size@, i as int);
        }
        None
    }
}

} // verus!
