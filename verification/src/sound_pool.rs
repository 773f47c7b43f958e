//! The sound effect pool of the desktop backend: streams grouped in buckets
//! by audio format, a free stream chosen for each effect, and the length of
//! a loaded sound.
use vstd::prelude::*;

use crate::constants::{MusicId, SfxId};

verus! {

/// The sample formats a wave file can hold.
#[derive(Debug, Clone, Copy, PartialEq, Eq, Hash, Structural)]
pub enum SampleFormat {
    U8,
    S8,
    S16LE,
    S16BE,
    S32LE,
    S32BE,
    F32LE,
    F32BE,
    Other,
}

/// The bytes one sample of a format takes; an unknown format counts as two.
pub open spec fn spec_bytes_per_sample(format: SampleFormat) -> nat {
    match format {
        SampleFormat::U8 | SampleFormat::S8 => 1,
        SampleFormat::S16LE | SampleFormat::S16BE => 2,
        SampleFormat::S32LE | SampleFormat::S32BE | SampleFormat::F32LE | SampleFormat::F32BE => 4,
        SampleFormat::Other => 2,
    }
}

pub fn bytes_per_sample(format: SampleFormat) -> (n: usize)
    ensures
        n == spec_bytes_per_sample(format),
{
    match format {
        SampleFormat::U8 | SampleFormat::S8 => 1,
        SampleFormat::S16LE | SampleFormat::S16BE => 2,
        SampleFormat::S32LE | SampleFormat::S32BE | SampleFormat::F32LE | SampleFormat::F32BE => 4,
        SampleFormat::Other => 2,
    }
}

/// A sample takes the format's bit width in bytes, over eight: eight-bit
/// formats one byte, sixteen-bit formats two, thirty-two-bit integer and
/// float formats four (an unknown format counts as sixteen-bit).  So a
/// buffer of `n` whole frames, each one sample for every channel, holds `n`
/// samples per channel.
pub proof fn lemma_sample_width(format: SampleFormat, n: nat, channels: u8)
    requires
        channels > 0,
    ensures
        spec_bytes_per_sample(format) * 8 == match format {
            SampleFormat::U8 | SampleFormat::S8 => 8nat,
            SampleFormat::S16LE | SampleFormat::S16BE => 16nat,
            SampleFormat::S32LE | SampleFormat::S32BE => 32nat,
            SampleFormat::F32LE | SampleFormat::F32BE => 32nat,
            SampleFormat::Other => 16nat,
        },
        (n * spec_bytes_per_sample(format) * channels) as int / (spec_bytes_per_sample(format) * channels as int) == n,
{
    let b: int = spec_bytes_per_sample(format) as int;
    let ch: int = channels as int;
    let frame: int = b * ch;
    assert(b > 0);
    assert(frame > 0) by (nonlinear_arith)
        requires
            b > 0,
            ch > 0,
            frame == b * ch,
    ;
    assert(n * b * ch == frame * n) by (nonlinear_arith)
        requires
            frame == b * ch,
    ;
    vstd::arithmetic::div_mod::lemma_div_multiples_vanish(n as int, frame);
}

/// How many samples per channel a buffer of `buffer_len` bytes holds: the
/// whole frames of one sample for each channel in it.
pub fn total_samples(format: SampleFormat, buffer_len: usize, channels: u8) -> (n: usize)
    requires
        channels > 0,
    ensures
        n == buffer_len as int / (spec_bytes_per_sample(format) * channels as int),
{
    let frame: usize = bytes_per_sample(format) * (channels as usize);
    buffer_len / frame
}

/// The format of an audio stream: streams of one bucket share it.
#[derive(Debug, Clone, Copy, PartialEq, Eq, Hash, Structural)]
pub struct SpecKey {
    pub freq: i32,
    pub channels: i32,
    pub format: SampleFormat,
}

/// A stream is free when it plays nothing, or once the sound it plays has
/// ended (`free_at`, on the backend's clock).
pub open spec fn is_free(free_at: Option<u128>, now: u128) -> bool {
    match free_at {
        None => true,
        Some(t) => now >= t,
    }
}

/// Whether a stream is free at `now`.
pub fn stream_is_free(free_at: Option<u128>, now: u128) -> (b: bool)
    ensures
        b == is_free(free_at, now),
{
    match free_at {
        None => true,
        Some(t) => now >= t,
    }
}

/// The time a busy stream frees up; streams that play nothing come first.
pub open spec fn free_key(free_at: Option<u128>) -> int {
    match free_at {
        None => -1,
        Some(t) => t as int,
    }
}

/// Stream `i` is the one to play the next effect on: the first free one,
/// or, when all are busy, the first of those that free up soonest.
pub open spec fn chosen_stream(free_at: Seq<Option<u128>>, now: u128, i: int) -> bool {
    &&& 0 <= i < free_at.len()
    &&& if exists|j: int| 0 <= j < free_at.len() && is_free(#[trigger] free_at[j], now) {
        &&& is_free(free_at[i], now)
        &&& forall|j: int| 0 <= j < i ==> !is_free(#[trigger] free_at[j], now)
    } else {
        &&& forall|j: int| 0 <= j < free_at.len() ==> free_key(free_at[i]) <= free_key(#[trigger] free_at[j])
        &&& forall|j: int| 0 <= j < i ==> free_key(free_at[i]) < free_key(#[trigger] free_at[j])
    }
}

/// Picks the stream of a bucket to play an effect on (see
/// `chosen_stream`); none where the bucket has no stream.
pub fn choose_stream(free_at: &Vec<Option<u128>>, now: u128) -> (r: Option<usize>)
    ensures
        r is None <==> free_at@.len() == 0,
        r matches Some(i) ==> chosen_stream(free_at@, now, i as int),
{
    let n: usize = free_at.len();
    let mut i: usize = 0;
    while i < n
        invariant
            n == free_at@.len(),
            i <= n,
            forall|j: int| 0 <= j < i ==> !is_free(#[trigger] free_at@[j], now),
        decreases n - i,
    {
        if stream_is_free(free_at[i], now) {
            return Some(i);
        }
        i = i + 1;
    }
    if n == 0 {
        return None;
    }
    let mut best: usize = 0;
    let mut k: usize = 1;
    while k < n
        invariant
            n == free_at@.len(),
            0 < n,
            best < k <= n,
            forall|j: int| 0 <= j < n ==> !is_free(#[trigger] free_at@[j], now),
            forall|j: int| 0 <= j < k ==> free_key(free_at@[best as int]) <= free_key(#[trigger] free_at@[j]),
            forall|j: int| 0 <= j < best ==> free_key(free_at@[best as int]) < free_key(#[trigger] free_at@[j]),
        decreases n - k,
    {
        let better: bool = match (free_at[k], free_at[best]) {
            (Some(a), Some(b)) => a < b,
            (None, Some(_)) => true,
            _ => false,
        };
        if better {
            best = k;
        }
        k = k + 1;
    }
    proof {
        assert forall|j: int| 0 <= j < n implies !is_free(#[trigger] free_at@[j], now) by {}
    }
    Some(best)
}

/// What `prepare` does to the buckets: which of the buckets there are stay
/// (those whose format a loaded sound has), and the formats that get a new
/// bucket, each once, in the order the sounds list them.
pub struct BucketPlan {
    pub keep: Vec<bool>,
    pub create: Vec<SpecKey>,
}

/// The formats of `needed` that no bucket has, each once, in first
/// occurrence order.
pub open spec fn spec_new_formats(existing: Seq<SpecKey>, needed: Seq<SpecKey>) -> Seq<SpecKey>
    decreases needed.len(),
{
    if needed.len() == 0 {
        Seq::empty()
    } else {
        let before = spec_new_formats(existing, needed.drop_last());
        let f = needed.last();
        if existing.contains(f) || before.contains(f) {
            before
        } else {
            before.push(f)
        }
    }
}

/// Plans the buckets for the formats of the loaded sounds (see
/// `BucketPlan`).
pub fn plan_buckets(existing: &Vec<SpecKey>, needed: &Vec<SpecKey>) -> (plan: BucketPlan)
    ensures
        plan.keep@.len() == existing@.len(),
        forall|i: int| 0 <= i < existing@.len() ==> plan.keep@[i] == needed@.contains(#[trigger] existing@[i]),
        plan.create@ == spec_new_formats(existing@, needed@),
{
    let mut keep: Vec<bool> = Vec::new();
    let mut i: usize = 0;
    while i < existing.len()
        invariant
            i <= existing@.len(),
            keep@.len() == i,
            forall|j: int| 0 <= j < i ==> keep@[j] == needed@.contains(#[trigger] existing@[j]),
        decreases existing@.len() - i,
    {
        keep.push(contains_format(needed, existing[i]));
        i = i + 1;
    }
    let mut create: Vec<SpecKey> = Vec::new();
    let mut k: usize = 0;
    while k < needed.len()
        invariant
            k <= needed@.len(),
            create@ == spec_new_formats(existing@, needed@.take(k as int)),
        decreases needed@.len() - k,
    {
        let f: SpecKey = needed[k];
        proof {
            assert(needed@.take(k + 1).drop_last() =~= needed@.take(k as int));
            assert(needed@.take(k + 1).last() == f);
        }
        if !contains_format(existing, f) && !contains_format(&create, f) {
            create.push(f);
        }
        k = k + 1;
    }
    proof {
        assert(needed@.take(needed@.len() as int) =~= needed@);
    }
    BucketPlan { keep, create }
}

/// Whether `f` is one of `formats`.
pub fn contains_format(formats: &Vec<SpecKey>, f: SpecKey) -> (b: bool)
    ensures
        b == formats@.contains(f),
{
    let mut i: usize = 0;
    while i < formats.len()
        invariant
            i <= formats@.len(),
            forall|j: int| 0 <= j < i ==> formats@[j] != f,
        decreases formats@.len() - i,
    {
        if formats[i] == f {
            return true;
        }
        i = i + 1;
    }
    false
}

/// After `prepare` every format a sound needs has exactly one new bucket or
/// a kept one, and no format gets two new buckets.
pub proof fn lemma_new_formats_cover(existing: Seq<SpecKey>, needed: Seq<SpecKey>)
    ensures
        forall|i: int| 0 <= i < needed.len() ==> existing.contains(#[trigger] needed[i]) || spec_new_formats(existing, needed).contains(needed[i]),
        spec_new_formats(existing, needed).no_duplicates(),
        forall|i: int| 0 <= i < spec_new_formats(existing, needed).len() ==> needed.contains(#[trigger] spec_new_formats(existing, needed)[i])
            && !existing.contains(spec_new_formats(existing, needed)[i]),
    decreases needed.len(),
{
    if needed.len() > 0 {
        let rest = needed.drop_last();
        lemma_new_formats_cover(existing, rest);
        let before = spec_new_formats(existing, rest);
        let f = needed.last();
        assert forall|i: int| 0 <= i < needed.len() implies existing.contains(#[trigger] needed[i]) || spec_new_formats(existing, needed).contains(needed[i]) by {
            if i < needed.len() - 1 {
                assert(needed[i] == rest[i]);
                if before.contains(needed[i]) {
                    let j = choose|j: int| 0 <= j < before.len() && before[j] == needed[i];
                    if !(existing.contains(f) || before.contains(f)) {
                        assert(before.push(f)[j] == needed[i]);
                    }
                }
            } else {
                if !(existing.contains(f) || before.contains(f)) {
                    assert(before.push(f)[before.len() as int] == f);
                }
            }
        }
        let r = spec_new_formats(existing, needed);
        assert forall|i: int| 0 <= i < r.len() implies needed.contains(#[trigger] r[i]) && !existing.contains(r[i]) by {
            if i < before.len() {
                assert(r[i] == before[i]);
                let j = choose|j: int| 0 <= j < rest.len() && rest[j] == before[i];
                assert(needed[j] == rest[j]);
            } else {
                assert(r[i] == f);
                assert(needed[needed.len() - 1] == f);
            }
        }
    }
}

/// A loaded sound effect: its format and how long it plays, in
/// nanoseconds.
#[derive(Debug, Clone, Copy, PartialEq, Eq, Structural)]
pub struct LoadedSound {
    pub id: SfxId,
    pub spec: SpecKey,
    pub duration_ns: u128,
}

/// The streams of one format, each with the time it frees up, if it plays
/// something.
pub struct Bucket {
    pub spec: SpecKey,
    pub free_at: Vec<Option<u128>>,
}

/// What the desktop backend's audio has loaded, and its pool of effect
/// streams: the backend keeps the sound data and the streams themselves in
/// the same order.
pub struct SoundBank {
    pub sounds: Vec<LoadedSound>,
    pub music: Vec<MusicId>,
    pub buckets: Vec<Bucket>,
    pub pool_size: usize,
}

/// Where to play a sound effect, or why it is not played.
#[derive(Debug, Clone, Copy, PartialEq, Eq, Structural)]
pub enum SfxPlay {
    /// The effect was never loaded: nothing to play, and no error.
    NotLoaded,
    /// No bucket has the effect's format: `prepare` was not called after
    /// loading it.
    NoBucket(SpecKey),
    /// The effect's bucket has no stream at all.
    NoStream,
    /// Play it on this stream of this bucket.
    Play { bucket: usize, stream: usize },
}

/// Bucket `b` is the first of format `spec`.
pub open spec fn is_first_bucket(buckets: Seq<Bucket>, spec: SpecKey, b: int) -> bool {
    &&& 0 <= b < buckets.len()
    &&& buckets[b].spec == spec
    &&& forall|j: int| 0 <= j < b ==> (#[trigger] buckets[j]).spec != spec
}

/// `after` is `before` with stream `stream` of bucket `b` busy until
/// `until`.
pub open spec fn busied(before: Seq<Bucket>, after: Seq<Bucket>, b: int, stream: int, until: u128) -> bool {
    &&& after.len() == before.len()
    &&& forall|k: int| 0 <= k < before.len() && k != b ==> #[trigger] after[k] == before[k]
    &&& after[b].spec == before[b].spec
    &&& after[b].free_at@ == before[b].free_at@.update(stream, Some(until))
}

/// The loaded music after `id` has loaded: unchanged where it was loaded
/// already.
pub open spec fn spec_with_music(music: Seq<MusicId>, id: MusicId) -> Seq<MusicId> {
    if music.contains(id) {
        music
    } else {
        music.push(id)
    }
}

/// A piece of music loads once: once it has loaded it is loaded, and
/// loading it again changes nothing, so the backend, which loads only what
/// `music_loaded` does not hold, never loads it twice.
pub proof fn lemma_music_loads_once(music: Seq<MusicId>, id: MusicId)
    ensures
        spec_with_music(music, id).contains(id),
        spec_with_music(spec_with_music(music, id), id) == spec_with_music(music, id),
        music.no_duplicates() ==> spec_with_music(music, id).no_duplicates(),
{
    if !music.contains(id) {
        assert(music.push(id)[music.len() as int] == id);
        if music.no_duplicates() {
            assert forall|i: int, j: int| 0 <= i < j < music.push(id).len() implies music.push(id)[i] != music.push(id)[j] by {
                if j == music.len() {
                    assert(music.push(id)[i] == music[i]);
                    if music[i] == id {
                        assert(music.contains(id));
                    }
                } else {
                    assert(music.push(id)[i] == music[i]);
                    assert(music.push(id)[j] == music[j]);
                }
            }
        }
    }
}

/// The buckets a `keep` mask leaves, in order.
pub open spec fn spec_retain(buckets: Seq<Bucket>, keep: Seq<bool>) -> Seq<Bucket>
    decreases buckets.len(),
{
    if buckets.len() == 0 || keep.len() == 0 {
        Seq::empty()
    } else {
        let before = spec_retain(buckets.drop_last(), keep.drop_last());
        if keep.last() {
            before.push(buckets.last())
        } else {
            before
        }
    }
}

/// The formats of a list of buckets, in order.
pub open spec fn bucket_formats(buckets: Seq<Bucket>) -> Seq<SpecKey> {
    buckets.map_values(|b: Bucket| b.spec)
}

proof fn lemma_retain_formats(buckets: Seq<Bucket>, keep: Seq<bool>, needed: Seq<SpecKey>)
    requires
        keep.len() == buckets.len(),
        forall|i: int| 0 <= i < buckets.len() ==> keep[i] == needed.contains(#[trigger] buckets[i].spec),
        bucket_formats(buckets).no_duplicates(),
    ensures
        forall|f: SpecKey|
            #[trigger] bucket_formats(spec_retain(buckets, keep)).contains(f) <==> (bucket_formats(buckets).contains(f)
                && needed.contains(f)),
        bucket_formats(spec_retain(buckets, keep)).no_duplicates(),
    decreases buckets.len(),
{
    if buckets.len() > 0 {
        let bs = buckets.drop_last();
        let ks = keep.drop_last();
        let e = bucket_formats(buckets);
        let es = bucket_formats(bs);
        assert(es =~= e.drop_last());
        assert forall|i: int| 0 <= i < bs.len() implies ks[i] == needed.contains(#[trigger] bs[i].spec) by {
            assert(bs[i] == buckets[i]);
        }
        assert(es.no_duplicates()) by {
            assert forall|i: int, j: int| 0 <= i < j < es.len() implies es[i] != es[j] by {
                assert(es[i] == e[i] && es[j] == e[j]);
            }
        }
        lemma_retain_formats(bs, ks, needed);
        let before = spec_retain(bs, ks);
        let last = buckets.last();
        let f0 = last.spec;
        assert(e[e.len() - 1] == f0);
        assert(!es.contains(f0)) by {
            if es.contains(f0) {
                let j = choose|j: int| 0 <= j < es.len() && es[j] == f0;
                assert(e[j] == es[j]);
            }
        }
        assert forall|f: SpecKey| e.contains(f) <==> (es.contains(f) || f == f0) by {
            if e.contains(f) {
                let j = choose|j: int| 0 <= j < e.len() && e[j] == f;
                if j < es.len() {
                    assert(es[j] == e[j]);
                }
            }
            if es.contains(f) {
                let j = choose|j: int| 0 <= j < es.len() && es[j] == f;
                assert(e[j] == es[j]);
            }
        }
        if keep.last() {
            assert(spec_retain(buckets, keep) == before.push(last));
            let r = bucket_formats(before.push(last));
            let rb = bucket_formats(before);
            assert(r =~= rb.push(f0));
            assert(keep[keep.len() - 1] == needed.contains(buckets[buckets.len() - 1].spec));
            assert forall|f: SpecKey| r.contains(f) <==> (rb.contains(f) || f == f0) by {
                if r.contains(f) {
                    let j = choose|j: int| 0 <= j < r.len() && r[j] == f;
                    if j < rb.len() {
                        assert(rb[j] == r[j]);
                    }
                }
                if rb.contains(f) {
                    let j = choose|j: int| 0 <= j < rb.len() && rb[j] == f;
                    assert(r[j] == rb[j]);
                }
                if f == f0 {
                    assert(r[rb.len() as int] == f0);
                }
            }
            assert forall|i: int, j: int| 0 <= i < j < r.len() implies r[i] != r[j] by {
                if j == rb.len() {
                    assert(r[i] == rb[i]);
                    assert(rb.contains(rb[i]));
                } else {
                    assert(r[i] == rb[i] && r[j] == rb[j]);
                }
            }
            assert(needed.contains(f0));
            assert forall|f: SpecKey| r.contains(f) <==> (e.contains(f) && needed.contains(f)) by {
                assert(e.contains(f) <==> (es.contains(f) || f == f0));
                assert(rb.contains(f) <==> (es.contains(f) && needed.contains(f)));
                assert(r.contains(f) <==> (rb.contains(f) || f == f0));
            }
        } else {
            assert(spec_retain(buckets, keep) == before);
            assert(keep[keep.len() - 1] == needed.contains(buckets[buckets.len() - 1].spec));
            let rb = bucket_formats(before);
            assert(!needed.contains(f0));
            assert forall|f: SpecKey| rb.contains(f) <==> (e.contains(f) && needed.contains(f)) by {
                assert(e.contains(f) <==> (es.contains(f) || f == f0));
                assert(rb.contains(f) <==> (es.contains(f) && needed.contains(f)));
            }
        }
    }
}

/// After `prepare` the buckets' formats are exactly the formats the loaded
/// effects need, each once: the kept buckets in their order, then one new
/// bucket for each missing format (see `SoundBank::plan_prepare`).
pub proof fn lemma_prepare_formats(buckets: Seq<Bucket>, keep: Seq<bool>, needed: Seq<SpecKey>)
    requires
        keep.len() == buckets.len(),
        forall|i: int| 0 <= i < buckets.len() ==> keep[i] == needed.contains(#[trigger] buckets[i].spec),
        bucket_formats(buckets).no_duplicates(),
    ensures
        ({
            let all = bucket_formats(spec_retain(buckets, keep)) + spec_new_formats(bucket_formats(buckets), needed);
            &&& all.no_duplicates()
            &&& forall|f: SpecKey| all.contains(f) <==> needed.contains(f)
        }),
{
    let e = bucket_formats(buckets);
    let r = bucket_formats(spec_retain(buckets, keep));
    let n = spec_new_formats(e, needed);
    let all = r + n;
    lemma_retain_formats(buckets, keep, needed);
    lemma_new_formats_cover(e, needed);
    assert forall|i: int, j: int| 0 <= i < j < all.len() implies all[i] != all[j] by {
        if j < r.len() {
            assert(all[i] == r[i] && all[j] == r[j]);
        } else if i >= r.len() {
            assert(all[i] == n[i - r.len()] && all[j] == n[j - r.len()]);
        } else {
            assert(all[i] == r[i] && all[j] == n[j - r.len()]);
            assert(r.contains(r[i]));
            assert(!e.contains(n[j - r.len()]));
        }
    }
    assert forall|f: SpecKey| all.contains(f) <==> needed.contains(f) by {
        if all.contains(f) {
            let j = choose|j: int| 0 <= j < all.len() && all[j] == f;
            if j < r.len() {
                assert(r[j] == f);
                assert(r.contains(f));
            } else {
                assert(n[j - r.len()] == f);
            }
        }
        if needed.contains(f) {
            let k = choose|k: int| 0 <= k < needed.len() && needed[k] == f;
            if e.contains(f) {
                assert(r.contains(f));
                let j = choose|j: int| 0 <= j < r.len() && r[j] == f;
                assert(all[j] == f);
            } else {
                assert(n.contains(needed[k]));
                let j = choose|j: int| 0 <= j < n.len() && n[j] == f;
                assert(all[j + r.len()] == f);
            }
        }
    }
}

/// The time a stream claimed at `now` for `duration` frees up, at the
/// latest time the clock can tell.
pub open spec fn spec_free_at(now: u128, duration: u128) -> u128 {
    if now + duration > u128::MAX {
        u128::MAX
    } else {
        (now + duration) as u128
    }
}

impl SoundBank {
    /// Each effect and each piece of music is loaded at most once.
    pub open spec fn wf(&self) -> bool {
        &&& forall|i: int, j: int| 0 <= i < j < self.sounds@.len() ==> (#[trigger] self.sounds@[i]).id != (#[trigger] self.sounds@[j]).id
        &&& self.music@.no_duplicates()
    }

    pub open spec fn has_sfx(&self, id: SfxId) -> bool {
        exists|i: int| 0 <= i < self.sounds@.len() && (#[trigger] self.sounds@[i]).id == id
    }

    pub open spec fn has_bucket(&self, spec: SpecKey) -> bool {
        exists|i: int| 0 <= i < self.buckets@.len() && (#[trigger] self.buckets@[i]).spec == spec
    }

    /// Nothing loaded yet; new buckets get `pool_size` streams.
    pub fn new(pool_size: usize) -> (b: SoundBank)
        ensures
            b.wf(),
            b.sounds@.len() == 0,
            b.music@.len() == 0,
            b.buckets@.len() == 0,
            b.pool_size == pool_size,
    {
        SoundBank { sounds: Vec::new(), music: Vec::new(), buckets: Vec::new(), pool_size }
    }

    /// Whether the effect is loaded.
    pub fn sfx_loaded(&self, id: SfxId) -> (b: bool)
        ensures
            b == self.has_sfx(id),
    {
        let mut i: usize = 0;
        while i < self.sounds.len()
            invariant
                i <= self.sounds@.len(),
                forall|j: int| 0 <= j < i ==> (#[trigger] self.sounds@[j]).id != id,
            decreases self.sounds@.len() - i,
        {
            if self.sounds[i].id == id {
                return true;
            }
            i = i + 1;
        }
        false
    }

    /// Records a newly loaded effect.
    pub fn add_sfx(&mut self, sound: LoadedSound)
        requires
            old(self).wf(),
            !old(self).has_sfx(sound.id),
        ensures
            final(self).wf(),
            final(self).sounds@ == old(self).sounds@.push(sound),
            final(self).music@ == old(self).music@,
            final(self).buckets@ == old(self).buckets@,
            final(self).pool_size == old(self).pool_size,
    {
        self.sounds.push(sound);
        proof {
            assert forall|i: int, j: int| 0 <= i < j < self.sounds@.len() implies (#[trigger] self.sounds@[i]).id
                != (#[trigger] self.sounds@[j]).id by {
                if j == self.sounds@.len() - 1 {
                    assert(old(self).sounds@[i] == self.sounds@[i]);
                } else {
                    assert(old(self).sounds@[i] == self.sounds@[i]);
                    assert(old(self).sounds@[j] == self.sounds@[j]);
                }
            }
        }
    }

    /// Records a numbered background piece that was just tried: where it
    /// loaded and was not loaded yet, it joins the loaded music.  Returns
    /// whether it was loaded already, in which case its id is reported once
    /// more.
    pub fn record_bg_music(&mut self, id: MusicId, loaded: bool) -> (was_loaded: bool)
        requires
            old(self).wf(),
        ensures
            final(self).wf(),
            was_loaded == old(self).music@.contains(id),
            final(self).music@ == if loaded {
                spec_with_music(old(self).music@, id)
            } else {
                old(self).music@
            },
            final(self).sounds@ == old(self).sounds@,
            final(self).buckets@ == old(self).buckets@,
            final(self).pool_size == old(self).pool_size,
    {
        let was_loaded: bool = self.music_loaded(id);
        if loaded && !was_loaded {
            self.add_music(id);
        }
        was_loaded
    }

    /// Whether the music is loaded.
    pub fn music_loaded(&self, id: MusicId) -> (b: bool)
        ensures
            b == self.music@.contains(id),
    {
        let mut i: usize = 0;
        while i < self.music.len()
            invariant
                i <= self.music@.len(),
                forall|j: int| 0 <= j < i ==> self.music@[j] != id,
            decreases self.music@.len() - i,
        {
            if self.music[i] == id {
                return true;
            }
            i = i + 1;
        }
        false
    }

    /// Records newly loaded music.
    pub fn add_music(&mut self, id: MusicId)
        requires
            old(self).wf(),
            !old(self).music@.contains(id),
        ensures
            final(self).wf(),
            final(self).music@ == old(self).music@.push(id),
            final(self).sounds@ == old(self).sounds@,
            final(self).buckets@ == old(self).buckets@,
            final(self).pool_size == old(self).pool_size,
    {
        self.music.push(id);
        proof {
            assert forall|i: int, j: int| 0 <= i < j < self.music@.len() implies self.music@[i] != self.music@[j] by {
                if j < old(self).music@.len() {
                    assert(old(self).music@[i] == self.music@[i]);
                    assert(old(self).music@[j] == self.music@[j]);
                } else {
                    assert(old(self).music@[i] == self.music@[i]);
                    assert(old(self).music@.contains(old(self).music@[i]));
                }
            }
        }
    }

    /// The index of the loaded effect with that id.
    pub fn find_sound(&self, id: SfxId) -> (r: Option<usize>)
        ensures
            r is None <==> !self.has_sfx(id),
            r matches Some(i) ==> i < self.sounds@.len() && self.sounds@[i as int].id == id,
    {
        let mut i: usize = 0;
        while i < self.sounds.len()
            invariant
                i <= self.sounds@.len(),
                forall|j: int| 0 <= j < i ==> (#[trigger] self.sounds@[j]).id != id,
            decreases self.sounds@.len() - i,
        {
            if self.sounds[i].id == id {
                return Some(i);
            }
            i = i + 1;
        }
        None
    }

    /// The index of the first bucket of that format.
    pub fn find_bucket(&self, spec: SpecKey) -> (r: Option<usize>)
        ensures
            r is None <==> !self.has_bucket(spec),
            r matches Some(b) ==> is_first_bucket(self.buckets@, spec, b as int),
    {
        let mut b: usize = 0;
        while b < self.buckets.len()
            invariant
                b <= self.buckets@.len(),
                forall|j: int| 0 <= j < b ==> (#[trigger] self.buckets@[j]).spec != spec,
            decreases self.buckets@.len() - b,
        {
            if self.buckets[b].spec == spec {
                return Some(b);
            }
            b = b + 1;
        }
        None
    }

    /// Decides where an effect plays at `now` (see `SfxPlay`): on the
    /// stream `choose_stream` picks in the first bucket of the effect's
    /// format.  Once the backend has started the effect there, `mark_busy`
    /// records how long the stream stays busy.
    pub fn play_sfx(&self, id: SfxId, now: u128) -> (p: SfxPlay)
        requires
            self.wf(),
        ensures
            (p == SfxPlay::NotLoaded) == !self.has_sfx(id),
            p matches SfxPlay::NoBucket(spec) ==> self.sound_spec(id, spec) && !self.has_bucket(spec),
            p == SfxPlay::NoStream ==> exists|spec: SpecKey, b: int|
                self.sound_spec(id, spec) && is_first_bucket(self.buckets@, spec, b) && self.buckets@[b].free_at@.len()
                    == 0,
            p matches SfxPlay::Play { bucket, stream } ==> exists|spec: SpecKey|
                self.sound_spec(id, spec) && is_first_bucket(self.buckets@, spec, bucket as int) && chosen_stream(
                    self.buckets@[bucket as int].free_at@,
                    now,
                    stream as int,
                ),
    {
        let found: Option<usize> = self.find_sound(id);
        let i: usize = match found {
            Some(i) => i,
            None => {
                return SfxPlay::NotLoaded;
            },
        };
        let sound: LoadedSound = self.sounds[i];
        proof {
            assert(self.sounds@[i as int] == sound);
        }
        let b: usize = match self.find_bucket(sound.spec) {
            Some(b) => b,
            None => {
                return SfxPlay::NoBucket(sound.spec);
            },
        };
        let chosen: Option<usize> = choose_stream(&self.buckets[b].free_at, now);
        match chosen {
            None => SfxPlay::NoStream,
            Some(stream) => SfxPlay::Play { bucket: b, stream },
        }
    }

    /// Records that stream `stream` of bucket `bucket` plays from `now` on
    /// for `duration_ns` nanoseconds; returns whether there is such a stream.
    pub fn mark_busy(&mut self, bucket: usize, stream: usize, duration_ns: u128, now: u128) -> (marked: bool)
        ensures
            marked == (bucket < old(self).buckets@.len() && stream < old(self).buckets@[bucket as int].free_at@.len()),
            marked ==> busied(
                old(self).buckets@,
                final(self).buckets@,
                bucket as int,
                stream as int,
                spec_free_at(now, duration_ns),
            ),
            !marked ==> final(self).buckets@ == old(self).buckets@,
            final(self).sounds@ == old(self).sounds@,
            final(self).music@ == old(self).music@,
            final(self).pool_size == old(self).pool_size,
    {
        if bucket >= self.buckets.len() || stream >= self.buckets[bucket].free_at.len() {
            return false;
        }
        let ghost old_buckets = self.buckets@;
        let mut b: Bucket = self.buckets.remove(bucket);
        b.free_at.set(stream, Some(now.saturating_add(duration_ns)));
        self.buckets.insert(bucket, b);
        proof {
            assert forall|k: int| 0 <= k < old_buckets.len() && k != bucket implies #[trigger] self.buckets@[k]
                == old_buckets[k] by {
                if k < bucket {
                    assert(self.buckets@[k] == old_buckets[k]);
                } else {
                    assert(self.buckets@[k] == old_buckets[k]);
                }
            }
        }
        true
    }

    /// The loaded effect with that id has that format.
    pub open spec fn sound_spec(&self, id: SfxId, spec: SpecKey) -> bool {
        exists|i: int| 0 <= i < self.sounds@.len() && (#[trigger] self.sounds@[i]).id == id && self.sounds@[i].spec == spec
    }

    /// The formats of the loaded effects, in loading order.
    pub open spec fn spec_needed(&self) -> Seq<SpecKey> {
        self.sounds@.map_values(|s: LoadedSound| s.spec)
    }

    /// The formats the buckets have, in order.
    pub open spec fn spec_bucket_formats(&self) -> Seq<SpecKey> {
        self.buckets@.map_values(|b: Bucket| b.spec)
    }

    /// Plans `prepare` (see `BucketPlan`): the buckets of formats no loaded
    /// effect has go, and each format without a bucket gets one.
    pub fn plan_prepare(&self) -> (plan: BucketPlan)
        ensures
            plan.keep@.len() == self.buckets@.len(),
            forall|i: int| 0 <= i < self.buckets@.len() ==> plan.keep@[i] == self.spec_needed().contains(
                #[trigger] self.buckets@[i].spec,
            ),
            plan.create@ == spec_new_formats(self.spec_bucket_formats(), self.spec_needed()),
    {
        let mut existing: Vec<SpecKey> = Vec::new();
        let mut i: usize = 0;
        while i < self.buckets.len()
            invariant
                i <= self.buckets@.len(),
                existing@ == self.spec_bucket_formats().take(i as int),
            decreases self.buckets@.len() - i,
        {
            existing.push(self.buckets[i].spec);
            proof {
                assert(self.spec_bucket_formats().take(i + 1) =~= self.spec_bucket_formats().take(i as int).push(
                    self.buckets@[i as int].spec,
                ));
            }
            i = i + 1;
        }
        let mut needed: Vec<SpecKey> = Vec::new();
        let mut k: usize = 0;
        while k < self.sounds.len()
            invariant
                k <= self.sounds@.len(),
                needed@ == self.spec_needed().take(k as int),
            decreases self.sounds@.len() - k,
        {
            needed.push(self.sounds[k].spec);
            proof {
                assert(self.spec_needed().take(k + 1) =~= self.spec_needed().take(k as int).push(self.sounds@[k as int].spec));
            }
            k = k + 1;
        }
        proof {
            assert(existing@ =~= self.spec_bucket_formats());
            assert(needed@ =~= self.spec_needed());
        }
        let plan: BucketPlan = plan_buckets(&existing, &needed);
        proof {
            assert forall|i: int| 0 <= i < self.buckets@.len() implies plan.keep@[i] == self.spec_needed().contains(
                #[trigger] self.buckets@[i].spec,
            ) by {
                assert(existing@[i] == self.buckets@[i].spec);
            }
        }
        plan
    }

    /// Drops the buckets the mask does not keep.
    pub fn retain_buckets(&mut self, keep: &Vec<bool>)
        requires
            keep@.len() == old(self).buckets@.len(),
        ensures
            final(self).buckets@ == spec_retain(old(self).buckets@, keep@),
            final(self).sounds@ == old(self).sounds@,
            final(self).music@ == old(self).music@,
            final(self).pool_size == old(self).pool_size,
    {
        let mut kept: Vec<Bucket> = Vec::new();
        let ghost all = self.buckets@;
        let mut rest: Vec<Bucket> = Vec::new();
        std::mem::swap(&mut rest, &mut self.buckets);
        let mut i: usize = 0;
        while i < keep.len()
            invariant
                keep@.len() == all.len(),
                i <= all.len(),
                rest@ == all.subrange(i as int, all.len() as int),
                kept@ == spec_retain(all.take(i as int), keep@.take(i as int)),
            decreases all.len() - i,
        {
            let b: Bucket = rest.remove(0);
            proof {
                assert(b == all[i as int]);
                assert(all.take(i + 1).drop_last() =~= all.take(i as int));
                assert(keep@.take(i + 1).drop_last() =~= keep@.take(i as int));
                assert(all.take(i + 1).last() == all[i as int]);
                assert(keep@.take(i + 1).last() == keep@[i as int]);
                assert(rest@ =~= all.subrange(i + 1, all.len() as int));
            }
            if keep[i] {
                kept.push(b);
            }
            i = i + 1;
        }
        proof {
            assert(all.take(all.len() as int) =~= all);
            assert(keep@.take(keep@.len() as int) =~= keep@);
        }
        self.buckets = kept;
    }

    /// Adds a bucket of that format with `streams` streams, all free.
    pub fn add_bucket(&mut self, spec: SpecKey, streams: usize)
        ensures
            final(self).buckets@.len() == old(self).buckets@.len() + 1,
            forall|k: int| 0 <= k < old(self).buckets@.len() ==> #[trigger] final(self).buckets@[k] == old(self).buckets@[k],
            final(self).buckets@.last().spec == spec,
            final(self).buckets@.last().free_at@ == Seq::new(streams as nat, |i: int| None::<u128>),
            final(self).sounds@ == old(self).sounds@,
            final(self).music@ == old(self).music@,
            final(self).pool_size == old(self).pool_size,
    {
        let mut free_at: Vec<Option<u128>> = Vec::new();
        let mut i: usize = 0;
        while i < streams
            invariant
                i <= streams,
                free_at@ == Seq::new(i as nat, |j: int| None::<u128>),
            decreases streams - i,
        {
            free_at.push(None);
            proof {
                assert(free_at@ =~= Seq::new((i + 1) as nat, |j: int| None::<u128>));
            }
            i = i + 1;
        }
        self.buckets.push(Bucket { spec, free_at });
    }
}

} // verus!
