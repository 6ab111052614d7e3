//! The two forms of a cached result: the wire form that is persisted, and
//! the runtime form that the hot tier holds, with decoded images.

use crate::bitmap::{decoded_image, decoded_webp, encoded_webp, Bitmap, BitmapView};
use vstd::prelude::*;
use vstd::string::*;

verus! {

/// What a `RawEmote` stands for.
pub struct RawEmoteView {
    pub name: Seq<char>,
    pub data: Seq<u8>,
}

/// What a `RawCacheValue` stands for.
pub enum RawView {
    ClientId(Seq<char>),
    UserId(Seq<char>),
    EmoteSet(Seq<RawEmoteView>),
}

/// What an `Emote` stands for.
pub struct EmoteView {
    pub name: Seq<char>,
    pub image: BitmapView,
}

/// What a `Value` stands for.
pub enum ValueView {
    ClientId(Seq<char>),
    UserId(Seq<char>),
    EmoteSet(Seq<EmoteView>),
}

/// An emote as persisted: its name and its image as a WebP file.
#[derive(Clone, Debug, PartialEq)]
pub struct RawEmote {
    name: String,
    data: Vec<u8>,
}

/// A cached result in wire form.
#[derive(Clone, Debug, PartialEq)]
pub enum RawCacheValue {
    ClientId(String),
    UserId(String),
    EmoteSet(Vec<RawEmote>),
}

/// An emote ready for display: its name and its decoded image.
#[derive(Debug, PartialEq)]
pub struct Emote {
    name: String,
    image: Bitmap,
}

/// A cached result in runtime form.
#[derive(Debug, PartialEq)]
pub enum Value {
    ClientId(String),
    UserId(String),
    EmoteSet(Vec<Emote>),
}

/// Why an image could not be brought into the persisted form.
#[derive(Clone, Copy, Debug, PartialEq, Eq)]
pub enum TranscodeError {
    /// The downloaded bytes are no image that the decoder reads.
    Decode,
    /// The decoded image cannot be written as WebP.
    Encode,
}

impl View for RawEmote {
    type V = RawEmoteView;

    closed spec fn view(&self) -> RawEmoteView {
        RawEmoteView { name: self.name@, data: self.data@ }
    }
}

impl View for Emote {
    type V = EmoteView;

    closed spec fn view(&self) -> EmoteView {
        EmoteView { name: self.name@, image: self.image@ }
    }
}

/// The persisted emotes that a vector holds, each by its view.
pub open spec fn raw_emotes_view(emotes: Seq<RawEmote>) -> Seq<RawEmoteView> {
    Seq::new(emotes.len(), |i: int| emotes[i]@)
}

/// The emotes that a vector holds, each by its view.
pub open spec fn emotes_view(emotes: Seq<Emote>) -> Seq<EmoteView> {
    Seq::new(emotes.len(), |i: int| emotes[i]@)
}

impl View for RawCacheValue {
    type V = RawView;

    open spec fn view(&self) -> RawView {
        match *self {
            RawCacheValue::ClientId(id) => RawView::ClientId(id@),
            RawCacheValue::UserId(id) => RawView::UserId(id@),
            RawCacheValue::EmoteSet(emotes) => RawView::EmoteSet(raw_emotes_view(emotes@)),
        }
    }
}

impl View for Value {
    type V = ValueView;

    open spec fn view(&self) -> ValueView {
        match *self {
            Value::ClientId(id) => ValueView::ClientId(id@),
            Value::UserId(id) => ValueView::UserId(id@),
            Value::EmoteSet(emotes) => ValueView::EmoteSet(emotes_view(emotes@)),
        }
    }
}

/// No two of the persisted emotes have the same name.
pub open spec fn names_unique(emotes: Seq<RawEmoteView>) -> bool {
    forall|i: int, j: int|
        0 <= i < j < emotes.len() ==> (#[trigger] emotes[i]).name != (#[trigger] emotes[j]).name
}

/// No two of the emotes have the same name.
pub open spec fn emote_names_unique(emotes: Seq<EmoteView>) -> bool {
    forall|i: int, j: int|
        0 <= i < j < emotes.len() ==> (#[trigger] emotes[i]).name != (#[trigger] emotes[j]).name
}

impl RawView {
    /// What holds of every persisted value: within an emote set, no name
    /// occurs twice.
    pub open spec fn well_formed(self) -> bool {
        match self {
            RawView::EmoteSet(emotes) => names_unique(emotes),
            _ => true,
        }
    }
}

impl ValueView {
    /// What holds of every cached value: within an emote set, no name
    /// occurs twice.
    pub open spec fn well_formed(self) -> bool {
        match self {
            ValueView::EmoteSet(emotes) => emote_names_unique(emotes),
            _ => true,
        }
    }
}

/// The runtime form of a persisted emote: the same name, and the image that
/// its data decodes to as WebP. There is none where the data does not decode.
pub open spec fn materialized_emote(raw: RawEmoteView) -> Option<EmoteView> {
    match decoded_webp(raw.data) {
        Some(image) => Some(EmoteView { name: raw.name, image }),
        None => None,
    }
}

/// The runtime form of a persisted value. Identifiers are kept as they are.
/// An emote set gives its emotes in the same order, each in runtime form. It
/// has no runtime form if a name occurs twice in it, or if any one of its
/// images does not decode.
pub open spec fn materialized(raw: RawView) -> Option<ValueView> {
    match raw {
        RawView::ClientId(id) => Some(ValueView::ClientId(id)),
        RawView::UserId(id) => Some(ValueView::UserId(id)),
        RawView::EmoteSet(emotes) => if names_unique(emotes) && forall|i: int|
            0 <= i < emotes.len() ==> (#[trigger] materialized_emote(emotes[i])) is Some {
            Some(
                ValueView::EmoteSet(
                    Seq::new(emotes.len(), |i: int| materialized_emote(emotes[i])->0),
                ),
            )
        } else {
            None
        },
    }
}

/// What transcoding a downloaded image gives: the image decoded from `bytes`
/// in whatever format it has, with `name`, both as it is persisted (written
/// as WebP) and as it is displayed.
pub open spec fn transcoded(name: Seq<char>, bytes: Seq<u8>) -> Result<
    (RawEmoteView, EmoteView),
    TranscodeError,
> {
    match decoded_image(bytes) {
        None => Err(TranscodeError::Decode),
        Some(image) => match encoded_webp(image) {
            None => Err(TranscodeError::Encode),
            Some(data) => Ok((RawEmoteView { name, data }, EmoteView { name, image })),
        },
    }
}

/// An optional persisted emote taken by its view.
pub open spec fn raw_emote_view(raw: Option<RawEmote>) -> Option<RawEmoteView> {
    match raw {
        Some(r) => Some(r@),
        None => None,
    }
}

/// An optional emote taken by its view.
pub open spec fn emote_view(emote: Option<Emote>) -> Option<EmoteView> {
    match emote {
        Some(e) => Some(e@),
        None => None,
    }
}

/// An optional persisted value taken by its view.
pub open spec fn raw_view(raw: Option<RawCacheValue>) -> Option<RawView> {
    match raw {
        Some(r) => Some(r@),
        None => None,
    }
}

/// An optional value taken by its view.
pub open spec fn value_view(value: Option<Value>) -> Option<ValueView> {
    match value {
        Some(v) => Some(v@),
        None => None,
    }
}

/// The outcome of a transcoding with both emotes taken by their views.
pub open spec fn transcoded_view(outcome: Result<(RawEmote, Emote), TranscodeError>) -> Result<
    (RawEmoteView, EmoteView),
    TranscodeError,
> {
    match outcome {
        Ok((raw, emote)) => Ok((raw@, emote@)),
        Err(e) => Err(e),
    }
}

impl RawEmote {
    pub fn new(name: String, data: Vec<u8>) -> (raw: RawEmote)
        ensures
            raw@ == (RawEmoteView { name: name@, data: data@ }),
    {
        RawEmote { name, data }
    }

    pub fn name(&self) -> (name: &str)
        ensures
            name@ == self@.name,
    {
        self.name.as_str()
    }

    /// Whether the emote has this name.
    pub fn has_name(&self, name: &String) -> (same: bool)
        ensures
            same == (self@.name == name@),
    {
        self.name == *name
    }

    /// The image as a WebP file.
    pub fn data(&self) -> (data: &[u8])
        ensures
            data@ == self@.data,
    {
        self.data.as_slice()
    }

    /// Writes `image` as WebP and names it. Fails only where the encoder does.
    pub fn from_image(name: String, image: &Bitmap) -> (raw: Option<RawEmote>)
        ensures
            raw_emote_view(raw) == match encoded_webp(image@) {
                Some(data) => Some(RawEmoteView { name: name@, data }),
                None => None,
            },
    {
        match image.encode_webp() {
            Some(data) => Some(RawEmote { name, data }),
            None => None,
        }
    }
}

impl Emote {
    pub fn new(name: String, image: Bitmap) -> (emote: Emote)
        ensures
            emote@ == (EmoteView { name: name@, image: image@ }),
    {
        Emote { name, image }
    }

    pub fn name(&self) -> (name: &str)
        ensures
            name@ == self@.name,
    {
        self.name.as_str()
    }

    /// Whether the emote has this name.
    pub fn has_name(&self, name: &String) -> (same: bool)
        ensures
            same == (self@.name == name@),
    {
        self.name == *name
    }

    pub fn image(&self) -> (image: &Bitmap)
        ensures
            image@ == self@.image,
    {
        &self.image
    }

    /// Brings a persisted emote into runtime form by decoding its image.
    pub fn from_raw(raw: &RawEmote) -> (emote: Option<Emote>)
        ensures
            emote_view(emote) == materialized_emote(raw@),
    {
        match Bitmap::decode_webp(raw.data.as_slice()) {
            Some(image) => Some(Emote { name: raw.name.clone(), image }),
            None => None,
        }
    }

    /// Decodes a downloaded image and returns it in both forms: as it is
    /// persisted and as it is displayed.
    pub fn transcode_from_bytes(name: String, bytes: &[u8]) -> (outcome: Result<
        (RawEmote, Emote),
        TranscodeError,
    >)
        ensures
            transcoded_view(outcome) == transcoded(name@, bytes@),
    {
        match Bitmap::decode(bytes) {
            None => Err(TranscodeError::Decode),
            Some(image) => match RawEmote::from_image(name.clone(), &image) {
                None => Err(TranscodeError::Encode),
                Some(raw) => Ok((raw, Emote { name, image })),
            },
        }
    }
}

/// A value in runtime form is well formed, and so is the persisted value
/// that it is the runtime form of: no emote set with a name twice has a
/// runtime form.
pub proof fn lemma_materialized_is_well_formed(raw: RawView)
    requires
        materialized(raw) is Some,
    ensures
        raw.well_formed(),
        materialized(raw)->0.well_formed(),
{
    if let RawView::EmoteSet(emotes) = raw {
        let made = Seq::new(emotes.len(), |i: int| materialized_emote(emotes[i])->0);
        assert forall|i: int, j: int| 0 <= i < j < made.len() implies (#[trigger] made[i]).name != (
        #[trigger] made[j]).name by {
            assert(materialized_emote(emotes[i]) is Some);
            assert(materialized_emote(emotes[j]) is Some);
            assert(emotes[i].name != emotes[j].name);
        }
    }
}

/// Whether no two of the persisted emotes have the same name.
pub fn has_unique_names(emotes: &Vec<RawEmote>) -> (unique: bool)
    ensures
        unique == names_unique(raw_emotes_view(emotes@)),
{
    let ghost views = raw_emotes_view(emotes@);
    let mut j: usize = 0;
    while j < emotes.len()
        invariant
            j <= emotes@.len(),
            views == raw_emotes_view(emotes@),
            forall|a: int, b: int|
                0 <= a < b < j ==> (#[trigger] views[a]).name != (#[trigger] views[b]).name,
        decreases emotes@.len() - j,
    {
        let mut i: usize = 0;
        while i < j
            invariant
                i <= j < emotes@.len(),
                views == raw_emotes_view(emotes@),
                forall|a: int| 0 <= a < i ==> (#[trigger] views[a]).name != views[j as int].name,
            decreases j - i,
        {
            if emotes[i].name == emotes[j].name {
                assert(views[i as int].name == views[j as int].name);
                return false;
            }
            i = i + 1;
        }
        j = j + 1;
    }
    true
}

impl RawCacheValue {
    /// Whether the value is well formed: whether, if it is an emote set, no
    /// name occurs twice in it.
    pub fn is_well_formed(&self) -> (well_formed: bool)
        ensures
            well_formed == self@.well_formed(),
    {
        match self {
            RawCacheValue::EmoteSet(emotes) => has_unique_names(emotes),
            _ => true,
        }
    }
}

/// Whether no two of the emotes have the same name.
pub fn has_unique_emote_names(emotes: &Vec<Emote>) -> (unique: bool)
    ensures
        unique == emote_names_unique(emotes_view(emotes@)),
{
    let ghost views = emotes_view(emotes@);
    let mut j: usize = 0;
    while j < emotes.len()
        invariant
            j <= emotes@.len(),
            views == emotes_view(emotes@),
            forall|a: int, b: int|
                0 <= a < b < j ==> (#[trigger] views[a]).name != (#[trigger] views[b]).name,
        decreases emotes@.len() - j,
    {
        let mut i: usize = 0;
        while i < j
            invariant
                i <= j < emotes@.len(),
                views == emotes_view(emotes@),
                forall|a: int| 0 <= a < i ==> (#[trigger] views[a]).name != views[j as int].name,
            decreases j - i,
        {
            if emotes[i].name == emotes[j].name {
                assert(views[i as int].name == views[j as int].name);
                return false;
            }
            i = i + 1;
        }
        j = j + 1;
    }
    true
}

impl Value {
    /// Whether the value is well formed: whether, if it is an emote set, no
    /// name occurs twice in it.
    pub fn is_well_formed(&self) -> (well_formed: bool)
        ensures
            well_formed == self@.well_formed(),
    {
        match self {
            Value::EmoteSet(emotes) => has_unique_emote_names(emotes),
            _ => true,
        }
    }

    /// Brings a persisted value into runtime form. Fails exactly where the
    /// value is an emote set with a name twice or with an image that does
    /// not decode. What it gives is well formed.
    pub fn from_raw(raw: &RawCacheValue) -> (value: Option<Value>)
        ensures
            value_view(value) == materialized(raw@),
            value matches Some(made) ==> made@.well_formed(),
    {
        proof {
            if materialized(raw@) is Some {
                lemma_materialized_is_well_formed(raw@);
            }
        }
        match raw {
            RawCacheValue::ClientId(id) => Some(Value::ClientId(id.clone())),
            RawCacheValue::UserId(id) => Some(Value::UserId(id.clone())),
            RawCacheValue::EmoteSet(raws) => {
                let ghost views = raw_emotes_view(raws@);
                if !has_unique_names(raws) {
                    return None;
                }
                let mut emotes: Vec<Emote> = Vec::new();
                let mut i: usize = 0;
                while i < raws.len()
                    invariant
                        i <= raws.len(),
                        views == raw_emotes_view(raws@),
                        raw@ == RawView::EmoteSet(views),
                        names_unique(views),
                        emotes@.len() == i,
                        forall|j: int|
                            0 <= j < i ==> materialized_emote(views[j]) == Some(
                                #[trigger] emotes@[j]@,
                            ),
                    decreases raws.len() - i,
                {
                    match Emote::from_raw(&raws[i]) {
                        Some(emote) => {
                            emotes.push(emote);
                        },
                        None => {
                            assert(materialized_emote(views[i as int]) is None);
                            return None;
                        },
                    }
                    i = i + 1;
                }
                let value = Value::EmoteSet(emotes);
                proof {
                    let expected = Seq::new(views.len(), |j: int| materialized_emote(views[j])->0);
                    assert forall|j: int| 0 <= j < views.len() implies (
                    #[trigger] materialized_emote(views[j])) is Some by {
                        assert(materialized_emote(views[j]) == Some(emotes@[j]@));
                    }
                    assert(emotes_view(emotes@) =~= expected);
                }
                Some(value)
            },
        }
    }
}

} // verus!
