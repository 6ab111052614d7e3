//! The populate protocol: hot lookup, cold lookup, producer, write-back.
//!
//! `course` says how one call goes, given what the cold tier and the
//! producer answer. The protocol is offered twice: step by step, for a
//! driver that does its own reading, producing and writing between the
//! steps, and as one call that is handed the three as functions.

use crate::bitmap::bytes_view;
use crate::codec::{
    decode,
    encode,
    lemma_round_trip,
    representable,
    unwired,
    wire,
};
use crate::store::{
    found,
    lemma_stored,
    lemma_touched,
    lemma_values_stay_well_formed,
    ref_view,
    stored,
    table_ok,
    touched,
    values_well_formed,
    Cache,
    Entry,
};
use crate::value::{
    lemma_materialized_is_well_formed,
    materialized,
    value_view,
    RawCacheValue,
    RawView,
    Value,
    ValueView,
};
use vstd::prelude::*;
use vstd::string::*;

verus! {

/// What the protocol does next after the hot lookup.
pub enum Step<'a> {
    /// The hot tier had the key: this is its value.
    Hit(&'a Value),
    /// The hot tier had no entry: read the cold tier, then call `load_disk`
    /// with what it holds, or go on to the producer if it holds nothing.
    ReadDisk,
    /// The hot tier had no entry and the cold tier is not in use: invoke the
    /// producer, then call `write_cache` with what it returns.
    Produce,
}

impl<'a> Step<'a> {
    /// This step is the one that follows the hot lookup of `key` in a table
    /// with these entries.
    pub open spec fn follows(
        self,
        entries: Seq<Entry>,
        use_disk_cache: bool,
        key: Seq<char>,
    ) -> bool {
        match self {
            Step::Hit(value) => found(entries, key) == Some(value@),
            Step::ReadDisk => found(entries, key) is None && use_disk_cache,
            Step::Produce => found(entries, key) is None && !use_disk_cache,
        }
    }
}

/// What `write_cache` hands back.
pub struct Written<'a> {
    /// The value as the hot tier now holds it.
    pub value: &'a Value,
    /// The file to write to the cold tier under the key, if it is in use.
    pub persist: Option<Vec<u8>>,
}

/// Why a populate call did not end with a value.
#[derive(Debug, PartialEq)]
pub enum PopulateError<E> {
    /// The producer failed with this error.
    Producer(E),
    /// The producer's value has an image that does not decode.
    Unusable,
}

/// Where the value of a populate call came from.
#[derive(Clone, Copy, Debug, PartialEq, Eq)]
pub enum Source {
    /// From the hot tier.
    Hot,
    /// From the file in the cold tier.
    Cold,
    /// From the producer. `persisted` tells whether the cold tier took the
    /// new file; it is `None` where the cold tier is not in use. `soft_miss`
    /// tells that the cold tier held a file under the key that gave no
    /// value.
    Producer { persisted: Option<bool>, soft_miss: bool },
}

/// What a populate call reports.
pub struct Populated<'a> {
    pub value: &'a Value,
    pub source: Source,
}

/// The runtime value that a file of the cold tier gives: the value that the
/// file stands for, in runtime form. A file that stands for no value, or for
/// one with an image that does not decode, gives none.
pub open spec fn thawed(file: Seq<u8>) -> Option<ValueView> {
    match unwired(file) {
        Some(raw) => materialized(raw),
        None => None,
    }
}

/// How one populate call goes.
pub struct Course<E> {
    /// The value and where it came from, or why there is none.
    pub result: Result<(ValueView, Source), PopulateError<E>>,
    /// The entries of the hot tier after the call.
    pub entries: Seq<Entry>,
    /// Whether the cold tier is asked for the file under the key.
    pub reads: bool,
    /// How often the producer is invoked.
    pub producer_calls: nat,
    /// The file that the cold tier is handed to keep under the key.
    pub written: Option<Seq<u8>>,
}

/// The course of a populate call for `key` on a hot tier with these entries
/// and this limit, where the cold tier holds `on_disk` under the key (nothing
/// where it has no file or cannot be read), the producer would return
/// `produced`, and the cold tier would answer `persisted` to a write.
///
/// A key that the hot tier has is served from there, and counts as used.
/// Else, with the cold tier in use, a file that gives a value is served and
/// its value put into the hot tier; a file that gives none is a soft miss
/// and counts as no file. Else the producer is invoked, once. Its failure
/// ends the call and changes nothing. Its value is put into the hot tier in
/// runtime form and, with the cold tier in use, handed to the cold tier as a
/// file, whose failure to keep it changes nothing else.
pub open spec fn course<E>(
    entries: Seq<Entry>,
    limit: nat,
    key: Seq<char>,
    use_disk_cache: bool,
    on_disk: Option<Seq<u8>>,
    produced: Result<RawView, E>,
    persisted: bool,
) -> Course<E> {
    if found(entries, key) is Some {
        Course {
            result: Ok((found(entries, key)->0, Source::Hot)),
            entries: touched(entries, key),
            reads: false,
            producer_calls: 0,
            written: None,
        }
    } else if use_disk_cache && on_disk is Some && thawed(on_disk->0) is Some {
        let value = thawed(on_disk->0)->0;
        Course {
            result: Ok((value, Source::Cold)),
            entries: stored(entries, limit, key, value),
            reads: true,
            producer_calls: 0,
            written: None,
        }
    } else {
        match produced {
            Err(e) => Course {
                result: Err(PopulateError::Producer(e)),
                entries,
                reads: use_disk_cache,
                producer_calls: 1,
                written: None,
            },
            Ok(raw) => match materialized(raw) {
                None => Course {
                    result: Err(PopulateError::Unusable),
                    entries,
                    reads: use_disk_cache,
                    producer_calls: 1,
                    written: None,
                },
                Some(value) => Course {
                    result: Ok(
                        (
                            value,
                            Source::Producer {
                                persisted: if use_disk_cache {
                                    Some(persisted)
                                } else {
                                    None
                                },
                                soft_miss: use_disk_cache && on_disk is Some,
                            },
                        ),
                    ),
                    entries: stored(entries, limit, key, value),
                    reads: use_disk_cache,
                    producer_calls: 1,
                    written: if use_disk_cache {
                        Some(wire(raw))
                    } else {
                        None
                    },
                },
            },
        }
    }
}

/// The cold tier was handed `file` to keep under the key and answered `ok`.
pub open spec fn handed_over<W: FnOnce(&str, &[u8]) -> bool>(
    write: W,
    key: &str,
    file: Seq<u8>,
    ok: bool,
) -> bool {
    exists|handed: &[u8]| handed@ == file && #[trigger] write.ensures((key, handed), ok)
}

/// The course of a call, for what the cold tier and the producer answered.
pub open spec fn course_for<E>(
    entries: Seq<Entry>,
    limit: nat,
    key: &str,
    use_disk_cache: bool,
    on_disk: Option<Vec<u8>>,
    produced: Result<RawCacheValue, E>,
    persisted: bool,
) -> Course<E> {
    course(
        entries,
        limit,
        key@,
        use_disk_cache,
        bytes_view(on_disk),
        produced_view(produced),
        persisted,
    )
}

/// The three functions were called as the course of the call says, and
/// answered `on_disk`, `produced` and `persisted`. Of a function that was not
/// called nothing is said.
pub open spec fn answered<E, R, P, W>(
    read: R,
    producer: P,
    write: W,
    entries: Seq<Entry>,
    limit: nat,
    key: &str,
    use_disk_cache: bool,
    on_disk: Option<Vec<u8>>,
    produced: Result<RawCacheValue, E>,
    persisted: bool,
) -> bool where
    R: FnOnce(&str) -> Option<Vec<u8>>,
    P: FnOnce() -> Result<RawCacheValue, E>,
    W: FnOnce(&str, &[u8]) -> bool,
 {
    let course = course_for(entries, limit, key, use_disk_cache, on_disk, produced, persisted);
    &&& course.reads ==> read.ensures((key,), on_disk)
    &&& course.producer_calls > 0 ==> producer.ensures((), produced)
    &&& course.written matches Some(file) ==> handed_over(write, key, file, persisted)
}

/// What a producer returned, with a value taken by its view.
pub open spec fn produced_view<E>(produced: Result<RawCacheValue, E>) -> Result<RawView, E> {
    match produced {
        Ok(raw) => Ok(raw@),
        Err(e) => Err(e),
    }
}

/// What a populate call returned, with the value taken by its view.
pub open spec fn populated_view<E>(outcome: Result<Populated<'_>, PopulateError<E>>) -> Result<
    (ValueView, Source),
    PopulateError<E>,
> {
    match outcome {
        Ok(p) => Ok((p.value@, p.source)),
        Err(e) => Err(e),
    }
}

/// Reads a file of the cold tier and brings its value into runtime form,
/// which is well formed.
pub fn thaw(file: &[u8]) -> (value: Option<Value>)
    ensures
        value_view(value) == thawed(file@),
        value matches Some(made) ==> made@.well_formed(),
{
    match decode(file) {
        Some(raw) => Value::from_raw(&raw),
        None => None,
    }
}

impl Cache {
    /// The first step of the protocol: the hot lookup.
    pub fn read_cache(&mut self, use_disk_cache: bool, key: &str) -> (step: Step<'_>)
        ensures
            step.follows(old(self).entries(), use_disk_cache, key@),
            step matches Step::Hit(value) ==> value@.well_formed(),
            final(self).entries() == touched(old(self).entries(), key@),
            final(self).limit() == old(self).limit(),
            final(self).dir() == old(self).dir(),
    {
        if self.contains(key) {
            match self.lookup(key) {
                Some(value) => Step::Hit(value),
                None => vstd::pervasive::unreached(),
            }
        } else if use_disk_cache {
            Step::ReadDisk
        } else {
            Step::Produce
        }
    }

    /// The second step, for a key that the hot tier does not have: `file` is
    /// what the cold tier holds under the key. Where the file gives a value,
    /// the value is put into the hot tier and handed out. Where it gives
    /// none, nothing changes and nothing is handed out: the caller goes on to
    /// the producer.
    pub fn load_disk(&mut self, key: &str, file: &[u8]) -> (value: Option<&Value>)
        ensures
            ref_view(value) == thawed(file@),
            value matches Some(made) ==> made@.well_formed(),
            final(self).entries() == match thawed(file@) {
                Some(v) => stored(old(self).entries(), old(self).limit(), key@, v),
                None => old(self).entries(),
            },
            final(self).limit() == old(self).limit(),
            final(self).dir() == old(self).dir(),
    {
        match thaw(file) {
            Some(value) => Some(self.insert(String::from_str(key), value)),
            None => None,
        }
    }

    /// The last step: `val` is what the producer returned. The value is put
    /// into the hot tier in runtime form and handed out, together with the
    /// file to write to the cold tier where that is in use. A value that has
    /// no runtime form is refused, and nothing changes.
    pub fn write_cache(&mut self, use_disk_cache: bool, key: &str, val: &RawCacheValue) -> (written:
        Option<Written<'_>>)
        ensures
            match written {
                Some(w) => materialized(val@) == Some(w.value@) && bytes_view(w.persist)
                    == if use_disk_cache {
                    Some(wire(val@))
                } else {
                    None
                },
                None => materialized(val@) is None,
            },
            written matches Some(w) ==> w.value@.well_formed() && val@.well_formed(),
            final(self).entries() == match materialized(val@) {
                Some(v) => stored(old(self).entries(), old(self).limit(), key@, v),
                None => old(self).entries(),
            },
            final(self).limit() == old(self).limit(),
            final(self).dir() == old(self).dir(),
    {
        match Value::from_raw(val) {
            Some(value) => {
                let persist = if use_disk_cache {
                    Some(encode(val))
                } else {
                    None
                };
                let value = self.insert(String::from_str(key), value);
                Some(Written { value, persist })
            },
            None => None,
        }
    }

    /// The whole protocol in one call, with the cold tier and the producer
    /// given as functions: `read` is asked for the file under the key,
    /// `producer` for the value, and `write` is handed the file to keep. The
    /// call goes as `course` says for what the three answer, and calls none
    /// of them more than once.
    ///
    /// Each of the three needs to be callable only where the course calls
    /// it: `read` for a key that the hot tier lacks, with the cold tier in
    /// use; `producer` where neither tier gives a value; `write` for the
    /// file of a value that the producer returned. So a call cannot reach
    /// the producer or the cold tier on a hit, nor write after the producer
    /// failed.
    pub fn populate<E, R, P, W>(
        &mut self,
        key: &str,
        use_disk_cache: bool,
        read: R,
        producer: P,
        write: W,
    ) -> (outcome: Result<Populated<'_>, PopulateError<E>>) where
        R: FnOnce(&str) -> Option<Vec<u8>>,
        P: FnOnce() -> Result<RawCacheValue, E>,
        W: FnOnce(&str, &[u8]) -> bool,

        requires
            found(old(self).entries(), key@) is None && use_disk_cache ==> read.requires((key,)),
            found(old(self).entries(), key@) is None && !use_disk_cache ==> producer.requires(()),
            forall|on_disk: Option<Vec<u8>>|
                found(old(self).entries(), key@) is None && use_disk_cache
                    && #[trigger] read.ensures((key,), on_disk) && (on_disk matches Some(file)
                    ==> thawed(file@) is None) ==> producer.requires(()),
            forall|file: &[u8], produced: Result<RawCacheValue, E>|
                found(old(self).entries(), key@) is None && use_disk_cache
                    && #[trigger] producer.ensures((), produced) && (produced matches Ok(raw)
                    && materialized(raw@) is Some && file@ == wire(raw@))
                    ==> #[trigger] write.requires((key, file)),
        ensures
            final(self).limit() == old(self).limit(),
            final(self).dir() == old(self).dir(),
            outcome matches Ok(populated) ==> populated.value@.well_formed(),
            exists|on_disk: Option<Vec<u8>>, produced: Result<RawCacheValue, E>, persisted: bool|
                {
                    &&& #[trigger] answered(
                        read,
                        producer,
                        write,
                        old(self).entries(),
                        old(self).limit(),
                        key,
                        use_disk_cache,
                        on_disk,
                        produced,
                        persisted,
                    )
                    &&& populated_view(outcome) == course_for(
                        old(self).entries(),
                        old(self).limit(),
                        key,
                        use_disk_cache,
                        on_disk,
                        produced,
                        persisted,
                    ).result
                    &&& final(self).entries() == course_for(
                        old(self).entries(),
                        old(self).limit(),
                        key,
                        use_disk_cache,
                        on_disk,
                        produced,
                        persisted,
                    ).entries
                },
    {
        let ghost entries = self.entries();
        let ghost limit = self.limit();
        if self.contains(key) {
            assert(answered(
                read,
                producer,
                write,
                entries,
                limit,
                key,
                use_disk_cache,
                arbitrary::<Option<Vec<u8>>>(),
                arbitrary::<Result<RawCacheValue, E>>(),
                false,
            ));
            return match self.lookup(key) {
                Some(value) => Ok(Populated { value, source: Source::Hot }),
                None => vstd::pervasive::unreached(),
            };
        }
        let mut on_disk: Option<Vec<u8>> = None;
        if use_disk_cache {
            on_disk = read(key);
            match &on_disk {
                Some(file) => match thaw(file.as_slice()) {
                    Some(value) => {
                        assert(answered(
                            read,
                            producer,
                            write,
                            entries,
                            limit,
                            key,
                            use_disk_cache,
                            on_disk,
                            arbitrary::<Result<RawCacheValue, E>>(),
                            false,
                        ));
                        let value = self.insert(String::from_str(key), value);
                        return Ok(Populated { value, source: Source::Cold });
                    },
                    None => {},
                },
                None => {},
            }
        }
        let produced = producer();
        match &produced {
            Err(_) => {},
            Ok(raw) => match self.write_cache(use_disk_cache, key, raw) {
                None => {
                    assert(answered(
                        read,
                        producer,
                        write,
                        entries,
                        limit,
                        key,
                        use_disk_cache,
                        on_disk,
                        produced,
                        false,
                    ));
                    return Err(PopulateError::Unusable);
                },
                Some(written) => {
                    let mut ok = false;
                    let persisted = match written.persist {
                        Some(file) => {
                            ok = write(key, file.as_slice());
                            assert(handed_over(write, key, wire(raw@), ok));
                            Some(ok)
                        },
                        None => None,
                    };
                    assert(answered(
                        read,
                        producer,
                        write,
                        entries,
                        limit,
                        key,
                        use_disk_cache,
                        on_disk,
                        produced,
                        ok,
                    ));
                    let soft_miss = on_disk.is_some();
                    return Ok(
                        Populated {
                            value: written.value,
                            source: Source::Producer { persisted, soft_miss },
                        },
                    );
                },
            },
        }
        match produced {
            Err(e) => {
                assert(answered(
                    read,
                    producer,
                    write,
                    entries,
                    limit,
                    key,
                    use_disk_cache,
                    on_disk,
                    produced,
                    false,
                ));
                Err(PopulateError::Producer(e))
            },
            Ok(_) => vstd::pervasive::unreached(),
        }
    }
}

/// A key that the hot tier does not have, looked up without the cold tier:
/// the producer is invoked exactly once, nothing is read or written, and the
/// call returns the producer's value in runtime form and leaves it in the
/// hot tier under the key.
pub proof fn lemma_miss_invokes_producer_once<E>(
    entries: Seq<Entry>,
    limit: nat,
    key: Seq<char>,
    on_disk: Option<Seq<u8>>,
    produced: RawView,
    persisted: bool,
)
    requires
        table_ok(entries, limit),
        found(entries, key) is None,
    ensures
        ({
            let course = course::<E>(entries, limit, key, false, on_disk, Ok(produced), persisted);
            &&& course.producer_calls == 1
            &&& !course.reads
            &&& course.written is None
            &&& match materialized(produced) {
                Some(value) => {
                    &&& course.result == Ok::<_, PopulateError<E>>(
                        (value, Source::Producer { persisted: None, soft_miss: false }),
                    )
                    &&& found(course.entries, key) == Some(value)
                },
                None => course.result == Err::<(ValueView, Source), _>(
                    PopulateError::<E>::Unusable,
                ) && course.entries == entries,
            }
        }),
{
    if materialized(produced) is Some {
        lemma_stored(entries, limit, key, materialized(produced)->0);
    }
}

/// After a call that ended with a value, a second call for the same key is
/// served from the hot tier: it returns the same value, whatever the cold
/// tier holds by then, and does not invoke the producer.
pub proof fn lemma_second_call_hits<E>(
    entries: Seq<Entry>,
    limit: nat,
    key: Seq<char>,
    use_disk_cache: bool,
    on_disk: Option<Seq<u8>>,
    produced: Result<RawView, E>,
    persisted: bool,
    later_use_disk_cache: bool,
    later_on_disk: Option<Seq<u8>>,
    later_produced: Result<RawView, E>,
    later_persisted: bool,
)
    requires
        table_ok(entries, limit),
        course(entries, limit, key, use_disk_cache, on_disk, produced, persisted).result is Ok,
    ensures
        ({
            let first = course(entries, limit, key, use_disk_cache, on_disk, produced, persisted);
            let second = course(
                first.entries,
                limit,
                key,
                later_use_disk_cache,
                later_on_disk,
                later_produced,
                later_persisted,
            );
            &&& table_ok(first.entries, limit)
            &&& second.result == Ok::<_, PopulateError<E>>((first.result->Ok_0.0, Source::Hot))
            &&& second.producer_calls == 0
            &&& !second.reads
            &&& second.written is None
        }),
{
    let first = course(entries, limit, key, use_disk_cache, on_disk, produced, persisted);
    let value = first.result->Ok_0.0;
    if found(entries, key) is Some {
        lemma_touched(entries, limit, key, key);
    } else {
        lemma_stored(entries, limit, key, value);
    }
}

/// A key looked up with the cold tier in use, where neither tier has it: the
/// producer is invoked once and its value handed to the cold tier as a file.
/// With that file in the cold tier, a call on a hot tier that starts empty
/// returns the same value from the file, and does not invoke the producer.
pub proof fn lemma_persisted_value_is_served<E>(
    entries: Seq<Entry>,
    limit: nat,
    key: Seq<char>,
    produced: RawView,
    persisted: bool,
    fresh_limit: nat,
    later_produced: Result<RawView, E>,
    later_persisted: bool,
)
    requires
        table_ok(entries, limit),
        found(entries, key) is None,
        representable(produced),
        materialized(produced) is Some,
    ensures
        ({
            let first = course::<E>(entries, limit, key, true, None, Ok(produced), persisted);
            let second = course(
                Seq::<Entry>::empty(),
                fresh_limit,
                key,
                true,
                first.written,
                later_produced,
                later_persisted,
            );
            &&& first.producer_calls == 1
            &&& first.written == Some(wire(produced))
            &&& first.result is Ok
            &&& second.result == Ok::<_, PopulateError<E>>((first.result->Ok_0.0, Source::Cold))
            &&& second.producer_calls == 0
            &&& second.written is None
        }),
{
    lemma_round_trip(produced);
}

/// A file in the cold tier that gives no value counts as no file: the
/// producer is invoked once, and the cold tier is handed a file in its place
/// that gives the producer's value.
pub proof fn lemma_corrupt_file_is_replaced<E>(
    entries: Seq<Entry>,
    limit: nat,
    key: Seq<char>,
    corrupt: Seq<u8>,
    produced: RawView,
    persisted: bool,
)
    requires
        table_ok(entries, limit),
        found(entries, key) is None,
        thawed(corrupt) is None,
        representable(produced),
        materialized(produced) is Some,
    ensures
        ({
            let course = course::<E>(
                entries,
                limit,
                key,
                true,
                Some(corrupt),
                Ok(produced),
                persisted,
            );
            &&& course.producer_calls == 1
            &&& course.result == Ok::<_, PopulateError<E>>(
                (
                    materialized(produced)->0,
                    Source::Producer { persisted: Some(persisted), soft_miss: true },
                ),
            )
            &&& course.written == Some(wire(produced))
            &&& thawed(wire(produced)) == materialized(produced)
        }),
{
    lemma_round_trip(produced);
}

/// The steps, taken one after the other by a driver that reads, produces
/// and writes between them, go the way of `course`: what `read_cache`,
/// `load_disk` and `write_cache` each do to the hot tier, and the file that
/// `write_cache` hands out, are what the course says of the whole call.
pub proof fn lemma_steps_make_the_course<E>(
    entries: Seq<Entry>,
    limit: nat,
    key: Seq<char>,
    use_disk_cache: bool,
    on_disk: Option<Seq<u8>>,
    produced: Result<RawView, E>,
    persisted: bool,
)
    ensures
        ({
            let course = course(entries, limit, key, use_disk_cache, on_disk, produced, persisted);
            let looked_up = touched(entries, key);
            if found(entries, key) is Some {
                course.entries == looked_up && course.written is None
            } else if use_disk_cache && on_disk is Some && thawed(on_disk->0) is Some {
                &&& looked_up == entries
                &&& course.entries == stored(looked_up, limit, key, thawed(on_disk->0)->0)
                &&& course.written is None
            } else {
                &&& looked_up == entries
                &&& course.reads == use_disk_cache
                &&& course.producer_calls == 1
                &&& match produced {
                    Ok(raw) => match materialized(raw) {
                        Some(value) => course.entries == stored(looked_up, limit, key, value)
                            && course.written == if use_disk_cache {
                            Some(wire(raw))
                        } else {
                            None
                        },
                        None => course.entries == looked_up && course.written is None,
                    },
                    Err(_) => course.entries == looked_up && course.written is None,
                }
            }
        }),
{
}

/// A call keeps the data well formed. On a hot tier of well-formed values it
/// returns a well-formed value and leaves the hot tier one of well-formed
/// values, and the file that it hands to the cold tier stands for the
/// producer's value, which is well formed: no emote set with a name twice is
/// returned, kept or persisted.
pub proof fn lemma_course_is_well_formed<E>(
    entries: Seq<Entry>,
    limit: nat,
    key: Seq<char>,
    use_disk_cache: bool,
    on_disk: Option<Seq<u8>>,
    produced: Result<RawView, E>,
    persisted: bool,
)
    requires
        table_ok(entries, limit),
        values_well_formed(entries),
        produced matches Ok(raw) ==> representable(raw),
    ensures
        ({
            let course = course(entries, limit, key, use_disk_cache, on_disk, produced, persisted);
            &&& values_well_formed(course.entries)
            &&& course.result matches Ok(served) ==> served.0.well_formed()
            &&& course.written matches Some(file) ==> produced is Ok && unwired(file) == Some(
                produced->Ok_0,
            ) && produced->Ok_0.well_formed()
        }),
{
    let went = course(entries, limit, key, use_disk_cache, on_disk, produced, persisted);
    if went.result is Ok {
        let value = went.result->Ok_0.0;
        if found(entries, key) is Some {
            lemma_values_stay_well_formed(entries, limit, key, value);
        } else {
            if use_disk_cache && on_disk is Some && thawed(on_disk->0) is Some {
                lemma_materialized_is_well_formed(unwired(on_disk->0)->0);
            } else {
                lemma_materialized_is_well_formed(produced->Ok_0);
                lemma_round_trip(produced->Ok_0);
            }
            lemma_values_stay_well_formed(entries, limit, key, value);
        }
    }
}

/// A failure of the producer ends the call with that failure and leaves
/// both tiers as they were.
pub proof fn lemma_producer_failure_changes_nothing<E>(
    entries: Seq<Entry>,
    limit: nat,
    key: Seq<char>,
    use_disk_cache: bool,
    on_disk: Option<Seq<u8>>,
    error: E,
    persisted: bool,
)
    requires
        found(entries, key) is None,
        on_disk matches Some(file) ==> thawed(file) is None,
    ensures
        ({
            let course = course(
                entries,
                limit,
                key,
                use_disk_cache,
                on_disk,
                Err::<RawView, E>(error),
                persisted,
            );
            &&& course.result == Err::<(ValueView, Source), _>(PopulateError::Producer(error))
            &&& course.entries == entries
            &&& course.written is None
        }),
{
}

} // verus!
