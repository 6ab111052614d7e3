//! Bounded fan-out for fetching the images of an emote catalog.
//!
//! The pipeline decides; its driver does the work. The driver asks `poll`
//! what to do, starts the download it is handed, and reports the outcome of
//! each finished download with `complete`. The pipeline never hands out more
//! downloads than its width allows to be in flight at once, and never
//! gathers two emotes of one name.

use crate::lookup::{Request, EMOTE_SIZE};
use crate::response::{listed, GlobalEmoteData, GlobalEmotes};
use crate::value::{
    names_unique,
    raw_emotes_view,
    transcoded,
    Emote,
    EmoteView,
    RawEmote,
    RawEmoteView,
};
use vstd::prelude::*;
use vstd::string::*;

verus! {

/// The number of downloads in flight at once unless asked otherwise.
pub const DEFAULT_WIDTH: usize = 5;

/// A download to start: the image of the catalog's emote at `index`.
pub struct Download {
    pub index: usize,
    pub name: String,
    pub request: Request,
}

/// What the driver does next.
pub enum Poll {
    /// Start this download, then poll again.
    Start(Download),
    /// Nothing can start now: wait for a download to finish, report it with
    /// `complete`, then poll again.
    Wait,
    /// Every emote of the catalog has been attempted.
    Done,
}

/// An emote in both forms, by the emotes' views.
pub type PairView = (RawEmoteView, EmoteView);

/// The pairs that two vectors of the same length hold, place by place, each
/// by the views of its emotes.
pub open spec fn pairs_view(raws: Seq<RawEmote>, emotes: Seq<Emote>) -> Seq<PairView> {
    Seq::new(raws.len(), |i: int| (raws[i]@, emotes[i]@))
}

/// The outcome of one download, by the views of the emotes.
pub open spec fn outcome_view(outcome: Option<(RawEmote, Emote)>) -> Option<PairView> {
    match outcome {
        Some((raw, emote)) => Some((raw@, emote@)),
        None => None,
    }
}

/// What one item gives: the emote in both forms where the download gave a
/// body and the body transcodes, nothing where any stage failed.
pub open spec fn settled(name: Seq<char>, body: Option<Seq<u8>>) -> Option<PairView> {
    match body {
        Some(bytes) => match transcoded(name, bytes) {
            Ok(pair) => Some(pair),
            Err(_) => None,
        },
        None => None,
    }
}

/// The work on one item after its download: transcodes the body. A download
/// that failed and a body that does not transcode both give nothing.
pub fn settle(name: String, body: Option<Vec<u8>>) -> (outcome: Option<(RawEmote, Emote)>)
    ensures
        outcome_view(outcome) == settled(
            name@,
            match body {
                Some(bytes) => Some(bytes@),
                None => None,
            },
        ),
{
    match body {
        Some(bytes) => match Emote::transcode_from_bytes(name, bytes.as_slice()) {
            Ok(pair) => Some(pair),
            Err(_) => None,
        },
        None => None,
    }
}

/// The emotes of the catalog from `from` up to `to` list no image in the
/// size that is fetched.
pub open spec fn imageless(items: Seq<GlobalEmoteData>, from: int, to: int) -> bool {
    forall|i: int| from <= i < to ==> listed((#[trigger] items[i]).images@, EMOTE_SIZE@) is None
}

/// Whether a report for the emote at `index` is taken as a success: it holds
/// a pair, and both emotes of the pair have the name of that emote.
pub open spec fn accepted(
    items: Seq<GlobalEmoteData>,
    index: int,
    outcome: Option<PairView>,
) -> bool {
    outcome matches Some(pair) && pair.0.name == items[index].name@ && pair.1.name
        == items[index].name@
}

/// Whether a pair with the name is among the pairs.
pub open spec fn named(pairs: Seq<PairView>, name: Seq<char>) -> bool {
    exists|k: int| 0 <= k < pairs.len() && (#[trigger] pairs[k]).0.name == name
}

/// Whether a report for the emote at `index` is stored: it is taken as a
/// success, and no pair with that name is stored yet. A second pair under a
/// name is not stored: a set holds every name once.
pub open spec fn storing(
    items: Seq<GlobalEmoteData>,
    pairs: Seq<PairView>,
    index: int,
    outcome: Option<PairView>,
) -> bool {
    accepted(items, index, outcome) && !named(pairs, items[index].name@)
}

/// No two emotes of the catalog have the same name.
pub open spec fn names_distinct(items: Seq<GlobalEmoteData>) -> bool {
    forall|i: int, j: int|
        0 <= i < j < items.len() ==> (#[trigger] items[i]).name@ != (#[trigger] items[j]).name@
}

/// The place of `index` among the downloads in flight.
fn position(flying: &Vec<usize>, index: usize) -> (place: Option<usize>)
    ensures
        match place {
            Some(p) => p < flying@.len() && flying@[p as int] == index,
            None => !flying@.contains(index),
        },
{
    let mut p: usize = 0;
    while p < flying.len()
        invariant
            p <= flying@.len(),
            forall|i: int| 0 <= i < p ==> flying@[i] != index,
        decreases flying@.len() - p,
    {
        if flying[p] == index {
            return Some(p);
        }
        p = p + 1;
    }
    None
}

/// Whether one of the persisted emotes has the name.
fn holds_name(raws: &Vec<RawEmote>, name: &String) -> (held: bool)
    ensures
        held == exists|k: int| 0 <= k < raws@.len() && (#[trigger] raws@[k])@.name == name@,
{
    let mut k: usize = 0;
    while k < raws.len()
        invariant
            k <= raws@.len(),
            forall|i: int| 0 <= i < k ==> (#[trigger] raws@[i])@.name != name@,
        decreases raws@.len() - k,
    {
        if raws[k].has_name(name) {
            return true;
        }
        k = k + 1;
    }
    false
}

/// The state of one run over a catalog.
pub struct Ingestion {
    items: Vec<GlobalEmoteData>,
    token: String,
    width: usize,
    started: usize,
    flying: Vec<usize>,
    failed: usize,
    order: Vec<usize>,
    raws: Vec<RawEmote>,
    emotes: Vec<Emote>,
}

impl Ingestion {
    /// What holds of every run: no more downloads are in flight than the
    /// width allows; every emote taken up so far is in flight, is lost, or
    /// has its pair stored, and only one of these; every stored pair has the
    /// name of the emote it was fetched for, and no two have the same name.
    pub closed spec fn wf(&self) -> bool {
        &&& 0 < self.width
        &&& self.flying@.len() <= self.width
        &&& self.started <= self.items@.len()
        &&& self.raws@.len() == self.order@.len()
        &&& self.emotes@.len() == self.order@.len()
        &&& self.order@.len() + self.failed + self.flying@.len() == self.started
        &&& forall|i: int| 0 <= i < self.flying@.len() ==> (#[trigger] self.flying@[i]) < self.started
        &&& forall|k: int| 0 <= k < self.order@.len() ==> (#[trigger] self.order@[k]) < self.started
        &&& forall|i: int, j: int|
            0 <= i < j < self.flying@.len() ==> (#[trigger] self.flying@[i]) != (
            #[trigger] self.flying@[j])
        &&& forall|k: int, l: int|
            0 <= k < l < self.order@.len() ==> (#[trigger] self.order@[k]) != (
            #[trigger] self.order@[l])
        &&& forall|i: int, k: int|
            0 <= i < self.flying@.len() && 0 <= k < self.order@.len() ==> (
            #[trigger] self.flying@[i]) != (#[trigger] self.order@[k])
        &&& forall|k: int|
            0 <= k < self.order@.len() ==> {
                let name = self.items@[(#[trigger] self.order@[k]) as int].name@;
                self.raws@[k]@.name == name && self.emotes@[k]@.name == name
            }
        &&& forall|k: int, l: int|
            0 <= k < l < self.raws@.len() ==> (#[trigger] self.raws@[k])@.name != (
            #[trigger] self.raws@[l])@.name
    }

    /// The emotes of the catalog, in the order of the catalog.
    pub closed spec fn items(&self) -> Seq<GlobalEmoteData> {
        self.items@
    }

    /// The token sent with every download.
    pub closed spec fn token(&self) -> Seq<char> {
        self.token@
    }

    /// The number of downloads allowed in flight at once.
    pub closed spec fn width(&self) -> nat {
        self.width as nat
    }

    /// The number of emotes taken up so far: those before this place in the
    /// catalog.
    pub closed spec fn started(&self) -> nat {
        self.started as nat
    }

    /// The number of downloads handed out and not yet reported.
    pub closed spec fn in_flight(&self) -> nat {
        self.flying@.len()
    }

    /// Whether the download for the emote at `index` was handed out and is
    /// not yet reported.
    pub closed spec fn is_flying(&self, index: int) -> bool {
        0 <= index <= usize::MAX && self.flying@.contains(index as usize)
    }

    /// The number of emotes lost: without an image to fetch, reported as
    /// failed, or reported under a name that was stored already.
    pub closed spec fn failed(&self) -> nat {
        self.failed as nat
    }

    /// The pairs stored so far, in the order in which they were reported.
    pub closed spec fn pairs(&self) -> Seq<PairView> {
        pairs_view(self.raws@, self.emotes@)
    }

    /// For each stored pair, the place in the catalog of the emote it was
    /// fetched for.
    pub closed spec fn order(&self) -> Seq<int> {
        Seq::new(self.order@.len(), |k: int| self.order@[k] as int)
    }

    /// Every emote has been attempted and no download is in flight.
    pub open spec fn done(&self) -> bool {
        self.started() == self.items().len() && self.in_flight() == 0
    }

    /// The fan-out bound and the account of the emotes, as they hold of
    /// every run.
    pub proof fn lemma_bounded(&self)
        requires
            self.wf(),
        ensures
            self.in_flight() <= self.width(),
            self.pairs().len() + self.failed() + self.in_flight() == self.started(),
            self.started() <= self.items().len(),
            self.done() ==> self.pairs().len() == self.items().len() - self.failed(),
    {
    }

    /// Every stored pair belongs to one emote of the catalog that was taken
    /// up and is no longer in flight, has the name of that emote in both
    /// forms, and no emote has two pairs.
    pub proof fn lemma_pairs_belong(&self)
        requires
            self.wf(),
        ensures
            self.order().len() == self.pairs().len(),
            forall|k: int|
                0 <= k < self.order().len() ==> {
                    let index = #[trigger] self.order()[k];
                    &&& 0 <= index < self.started()
                    &&& !self.is_flying(index)
                    &&& self.pairs()[k].0.name == self.items()[index].name@
                    &&& self.pairs()[k].1.name == self.items()[index].name@
                },
            forall|k: int, l: int|
                0 <= k < l < self.order().len() ==> #[trigger] self.order()[k]
                    != #[trigger] self.order()[l],
    {
        assert forall|k: int| 0 <= k < self.order().len() implies {
            let index = #[trigger] self.order()[k];
            &&& 0 <= index < self.started()
            &&& !self.is_flying(index)
            &&& self.pairs()[k].0.name == self.items()[index].name@
            &&& self.pairs()[k].1.name == self.items()[index].name@
        } by {
            let index = self.order@[k];
            if self.flying@.contains(index) {
                let i = choose|i: int| 0 <= i < self.flying@.len() && self.flying@[i] == index;
                assert(self.flying@[i] != self.order@[k]);
            }
        }
        assert forall|k: int, l: int| 0 <= k < l < self.order().len() implies #[trigger] self.order()[k]
            != #[trigger] self.order()[l] by {
            assert(self.order@[k] != self.order@[l]);
        }
    }

    /// No name is stored twice, in either form.
    pub proof fn lemma_names_distinct(&self)
        requires
            self.wf(),
        ensures
            forall|k: int, l: int|
                0 <= k < l < self.pairs().len() ==> (#[trigger] self.pairs()[k]).0.name != (
                #[trigger] self.pairs()[l]).0.name,
            forall|k: int, l: int|
                0 <= k < l < self.pairs().len() ==> (#[trigger] self.pairs()[k]).1.name != (
                #[trigger] self.pairs()[l]).1.name,
    {
        assert forall|k: int, l: int| 0 <= k < l < self.pairs().len() implies (
        #[trigger] self.pairs()[k]).0.name != (#[trigger] self.pairs()[l]).0.name by {
            assert(self.raws@[k]@.name != self.raws@[l]@.name);
        }
        assert forall|k: int, l: int| 0 <= k < l < self.pairs().len() implies (
        #[trigger] self.pairs()[k]).1.name != (#[trigger] self.pairs()[l]).1.name by {
            assert(self.raws@[k]@.name != self.raws@[l]@.name);
            assert(self.emotes@[k]@.name == self.items@[self.order@[k] as int].name@);
            assert(self.emotes@[l]@.name == self.items@[self.order@[l] as int].name@);
        }
    }

    /// Over a catalog without repeated names, the name of an emote whose
    /// download is in flight is not stored yet: there, no success is lost
    /// for its name.
    pub proof fn lemma_fresh_name(&self, index: int)
        requires
            self.wf(),
            names_distinct(self.items()),
            self.is_flying(index),
        ensures
            0 <= index < self.items().len(),
            !named(self.pairs(), self.items()[index].name@),
    {
        let i = choose|i: int| 0 <= i < self.flying@.len() && self.flying@[i] == index as usize;
        assert(self.flying@[i] < self.started);
        if named(self.pairs(), self.items()[index].name@) {
            let k = choose|k: int|
                0 <= k < self.pairs().len() && (#[trigger] self.pairs()[k]).0.name
                    == self.items()[index].name@;
            let other = self.order@[k] as int;
            assert(self.flying@[i] != self.order@[k]);
            assert(self.raws@[k]@.name == self.items@[other].name@);
            if other < index {
                assert(self.items@[other].name@ != self.items@[index].name@);
            } else {
                assert(self.items@[index].name@ != self.items@[other].name@);
            }
        }
    }

    /// A run over `catalog` with at most `width` downloads in flight. There
    /// is no run of width zero: it could start nothing.
    pub fn new(catalog: GlobalEmotes, token: String, width: usize) -> (run: Option<Ingestion>)
        ensures
            run is Some <==> width > 0,
            run matches Some(r) ==> {
                &&& r.wf()
                &&& r.items() == catalog.data@
                &&& r.token() == token@
                &&& r.width() == width
                &&& r.started() == 0
                &&& r.in_flight() == 0
                &&& r.failed() == 0
                &&& r.pairs() == Seq::<PairView>::empty()
                &&& r.order() == Seq::<int>::empty()
                &&& forall|index: int| !r.is_flying(index)
            },
    {
        if width == 0 {
            None
        } else {
            let run = Ingestion {
                items: catalog.data,
                token,
                width,
                started: 0,
                flying: Vec::new(),
                failed: 0,
                order: Vec::new(),
                raws: Vec::new(),
                emotes: Vec::new(),
            };
            assert(run.pairs() =~= Seq::<PairView>::empty());
            assert(run.order() =~= Seq::<int>::empty());
            Some(run)
        }
    }

    /// Decides what the driver does next. Emotes without an image to fetch
    /// are counted as failed on the way. A download is handed out only while
    /// fewer than `width` are in flight, for the next emote of the catalog
    /// that has an image; the driver waits while downloads are in flight and
    /// none can start; the run is done when neither holds.
    pub fn poll(&mut self) -> (next: Poll)
        requires
            old(self).wf(),
        ensures
            final(self).wf(),
            final(self).items() == old(self).items(),
            final(self).token() == old(self).token(),
            final(self).width() == old(self).width(),
            final(self).pairs() == old(self).pairs(),
            final(self).order() == old(self).order(),
            final(self).in_flight() <= final(self).width(),
            match next {
                Poll::Start(download) => {
                    let at = download.index as int;
                    &&& old(self).in_flight() < old(self).width()
                    &&& old(self).started() <= at < old(self).items().len()
                    &&& imageless(old(self).items(), old(self).started() as int, at)
                    &&& download.name@ == old(self).items()[at].name@
                    &&& listed(old(self).items()[at].images@, EMOTE_SIZE@) == Some(
                        download.request.url@,
                    )
                    &&& download.request.bearer@ == old(self).token()
                    &&& download.request.client_id is None
                    &&& final(self).started() == at + 1
                    &&& final(self).in_flight() == old(self).in_flight() + 1
                    &&& forall|index: int|
                        final(self).is_flying(index) == (old(self).is_flying(index) || index == at)
                    &&& final(self).failed() == old(self).failed() + (at - old(self).started())
                },
                Poll::Wait => {
                    let upto = final(self).started() as int;
                    &&& old(self).in_flight() > 0
                    &&& old(self).in_flight() == old(self).width() || upto
                        == old(self).items().len()
                    &&& old(self).started() <= upto
                    &&& imageless(old(self).items(), old(self).started() as int, upto)
                    &&& final(self).in_flight() == old(self).in_flight()
                    &&& forall|index: int| final(self).is_flying(index) == old(self).is_flying(index)
                    &&& final(self).failed() == old(self).failed() + (upto - old(self).started())
                },
                Poll::Done => {
                    &&& old(self).in_flight() == 0
                    &&& imageless(
                        old(self).items(),
                        old(self).started() as int,
                        old(self).items().len() as int,
                    )
                    &&& final(self).done()
                    &&& final(self).failed() == old(self).failed() + (old(self).items().len()
                        - old(self).started())
                },
            },
    {
        while self.flying.len() < self.width && self.started < self.items.len()
            invariant
                self.wf(),
                self.items == old(self).items,
                self.token == old(self).token,
                self.width == old(self).width,
                self.raws == old(self).raws,
                self.emotes == old(self).emotes,
                self.order == old(self).order,
                self.flying == old(self).flying,
                old(self).started <= self.started,
                imageless(self.items@, old(self).started as int, self.started as int),
                self.failed == old(self).failed + (self.started - old(self).started),
            decreases self.items.len() - self.started,
        {
            let at = self.started;
            let item = &self.items[at];
            match item.image_url(EMOTE_SIZE) {
                Some(url) => {
                    let download = Download {
                        index: at,
                        name: item.name.clone(),
                        request: Request {
                            url: String::from_str(url),
                            bearer: self.token.clone(),
                            client_id: None,
                        },
                    };
                    let ghost before = self.flying@;
                    self.started = at + 1;
                    self.flying.push(at);
                    proof {
                        assert forall|index: int|
                            self.is_flying(index) == (old(self).is_flying(index) || index
                                == at) by {
                            if 0 <= index <= usize::MAX {
                                let wanted = index as usize;
                                if before.contains(wanted) {
                                    let i = choose|i: int|
                                        0 <= i < before.len() && before[i] == wanted;
                                    assert(self.flying@[i] == wanted);
                                }
                                if wanted == at {
                                    assert(self.flying@[before.len() as int] == wanted);
                                }
                            }
                        }
                    }
                    return Poll::Start(download);
                },
                None => {
                    self.started = at + 1;
                    self.failed = self.failed + 1;
                },
            }
        }
        if self.flying.len() > 0 {
            Poll::Wait
        } else {
            Poll::Done
        }
    }

    /// Takes the report of the download for the emote at `index`: the pair
    /// where the item succeeded, nothing where it failed at any stage. A
    /// pair is stored if both its emotes have the name of that emote and no
    /// pair is stored under that name yet. A failure, a pair under another
    /// name, and a second pair under a name are counted as lost and
    /// otherwise passed over. Answers whether that download was in flight;
    /// a report for one that was not changes nothing.
    pub fn complete(&mut self, index: usize, outcome: Option<(RawEmote, Emote)>) -> (expected:
        bool)
        requires
            old(self).wf(),
        ensures
            final(self).wf(),
            expected == old(self).is_flying(index as int),
            final(self).items() == old(self).items(),
            final(self).token() == old(self).token(),
            final(self).width() == old(self).width(),
            final(self).started() == old(self).started(),
            final(self).in_flight() <= final(self).width(),
            final(self).in_flight() == if expected {
                old(self).in_flight() - 1
            } else {
                old(self).in_flight() as int
            },
            forall|other: int|
                final(self).is_flying(other) == (old(self).is_flying(other) && other != index),
            final(self).pairs() == if expected && storing(
                old(self).items(),
                old(self).pairs(),
                index as int,
                outcome_view(outcome),
            ) {
                old(self).pairs().push(outcome_view(outcome)->0)
            } else {
                old(self).pairs()
            },
            final(self).order() == if expected && storing(
                old(self).items(),
                old(self).pairs(),
                index as int,
                outcome_view(outcome),
            ) {
                old(self).order().push(index as int)
            } else {
                old(self).order()
            },
            final(self).failed() == if expected && !storing(
                old(self).items(),
                old(self).pairs(),
                index as int,
                outcome_view(outcome),
            ) {
                (old(self).failed() + 1) as int
            } else {
                old(self).failed() as int
            },
    {
        let place = match position(&self.flying, index) {
            Some(place) => place,
            None => {
                return false;
            },
        };
        let ghost before = self.flying@;
        self.flying.remove(place);
        proof {
            assert forall|other: int|
                self.is_flying(other) == (old(self).is_flying(other) && other != index) by {
                if 0 <= other <= usize::MAX {
                    let wanted = other as usize;
                    if self.flying@.contains(wanted) {
                        let i = choose|i: int|
                            0 <= i < self.flying@.len() && self.flying@[i] == wanted;
                        let j = if i < place { i } else { i + 1 };
                        assert(before[j] == wanted);
                        if j < place {
                            assert(before[j] != before[place as int]);
                        } else {
                            assert(before[place as int] != before[j]);
                        }
                    }
                    if before.contains(wanted) && wanted != index {
                        let j = choose|j: int| 0 <= j < before.len() && before[j] == wanted;
                        let i = if j < place { j } else { j - 1 };
                        assert(self.flying@[i] == wanted);
                    }
                }
            }
            assert forall|i: int, j: int| 0 <= i < j < self.flying@.len() implies (
            #[trigger] self.flying@[i]) != (#[trigger] self.flying@[j]) by {
                let a = if i < place { i } else { i + 1 };
                let b = if j < place { j } else { j + 1 };
                assert(before[a] != before[b]);
            }
            assert forall|i: int, k: int|
                0 <= i < self.flying@.len() && 0 <= k < self.order@.len() implies (
            #[trigger] self.flying@[i]) != (#[trigger] self.order@[k]) by {
                let a = if i < place { i } else { i + 1 };
                assert(before[a] != self.order@[k]);
            }
            assert forall|i: int| 0 <= i < self.flying@.len() implies (
            #[trigger] self.flying@[i]) < self.started by {
                let a = if i < place { i } else { i + 1 };
                assert(before[a] < self.started);
            }
            assert(before[place as int] < self.started);
            assert forall|k: int| 0 <= k < self.order@.len() implies (#[trigger] self.order@[k])
                != index by {
                assert(before[place as int] != self.order@[k]);
            }
        }
        let stored = match outcome {
            Some((raw, emote)) => {
                let name = &self.items[index].name;
                let ghost pairs = self.pairs();
                let ghost order = self.order();
                let ghost raws = self.raws@;
                if raw.has_name(name) && emote.has_name(name) && !holds_name(&self.raws, name) {
                    assert(!named(pairs, name@)) by {
                        if named(pairs, name@) {
                            let k = choose|k: int|
                                0 <= k < pairs.len() && (#[trigger] pairs[k]).0.name == name@;
                            assert(raws[k]@.name == name@);
                        }
                    }
                    self.raws.push(raw);
                    self.emotes.push(emote);
                    self.order.push(index);
                    assert(self.pairs() =~= pairs.push((raw@, emote@)));
                    assert(self.order() =~= order.push(index as int));
                    true
                } else {
                    assert(!storing(self.items@, pairs, index as int, Some((raw@, emote@)))) by {
                        if raw@.name == name@ && emote@.name == name@ {
                            let k = choose|k: int|
                                0 <= k < raws.len() && (#[trigger] raws[k])@.name == name@;
                            assert(pairs[k].0.name == name@);
                        }
                    }
                    false
                }
            },
            None => false,
        };
        if !stored {
            self.failed = self.failed + 1;
        }
        true
    }

    /// The number of downloads in flight.
    pub fn running(&self) -> (n: usize)
        ensures
            n == self.in_flight(),
    {
        self.flying.len()
    }

    /// The number of emotes that were lost so far.
    pub fn lost(&self) -> (n: usize)
        ensures
            n == self.failed(),
    {
        self.failed
    }

    /// Whether every emote has been attempted and reported.
    pub fn is_done(&self) -> (done: bool)
        ensures
            done == self.done(),
    {
        self.started == self.items.len() && self.flying.len() == 0
    }

    /// Ends the run and hands out what was gathered: the emotes in runtime
    /// form and in persisted form, pair by pair in the order in which they
    /// were reported. Each pair has the name of the emote of the catalog
    /// that it was fetched for, and no name occurs twice. After a run that
    /// is done, that is one pair for every emote of the catalog that was not
    /// lost.
    pub fn finish(self) -> (gathered: (Vec<Emote>, Vec<RawEmote>))
        requires
            self.wf(),
        ensures
            gathered.0@.len() == self.pairs().len(),
            gathered.1@.len() == self.pairs().len(),
            forall|i: int|
                0 <= i < self.pairs().len() ==> (#[trigger] gathered.1@[i])@ == self.pairs()[i].0
                    && (#[trigger] gathered.0@[i])@ == self.pairs()[i].1,
            forall|i: int|
                0 <= i < self.pairs().len() ==> {
                    let name = self.items()[#[trigger] self.order()[i]].name@;
                    gathered.1@[i]@.name == name && gathered.0@[i]@.name == name
                },
            forall|i: int, j: int|
                0 <= i < j < self.pairs().len() ==> (#[trigger] gathered.1@[i])@.name != (
                #[trigger] gathered.1@[j])@.name,
            forall|i: int, j: int|
                0 <= i < j < self.pairs().len() ==> (#[trigger] gathered.0@[i])@.name != (
                #[trigger] gathered.0@[j])@.name,
            names_unique(raw_emotes_view(gathered.1@)),
            self.done() ==> gathered.0@.len() == self.items().len() - self.failed(),
    {
        proof {
            self.lemma_pairs_belong();
            self.lemma_names_distinct();
            assert forall|i: int, j: int| 0 <= i < j < self.pairs().len() implies (
            #[trigger] self.emotes@[i])@.name != (#[trigger] self.emotes@[j])@.name by {
                assert(self.pairs()[i].1.name != self.pairs()[j].1.name);
            }
        }
        (self.emotes, self.raws)
    }
}

} // verus!
