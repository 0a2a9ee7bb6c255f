//! Audio: 16-bit PCM WAV encoding of recorded speech, and the music
//! library's file filter and track identifiers.

use vstd::prelude::*;
use std::collections::hash_map::DefaultHasher;
use std::hash::{Hash, Hasher};
use vstd::std_specs::hash::DefaultHasherAdditionalSpecFns;
use crate::text::str_eq;
use crate::tools::report::{lex_le, lex_le_exec, lemma_lex_total, lemma_lex_trans, lemma_lex_antisym};

verus! {

/// The little-endian bytes of a 16-bit value.
pub open spec fn le16(x: nat) -> Seq<u8> {
    seq![(x % 256) as u8, ((x / 256) % 256) as u8]
}

/// The little-endian bytes of a 32-bit value.
pub open spec fn le32(x: nat) -> Seq<u8> {
    seq![(x % 256) as u8, ((x / 256) % 256) as u8, ((x / 65536) % 256) as u8, ((x / 16777216) % 256) as u8]
}

/// The four ASCII bytes of a chunk tag.
pub open spec fn tag(a: char, b: char, c: char, d: char) -> Seq<u8> {
    seq![a as u8, b as u8, c as u8, d as u8]
}

/// The 44-byte header of a mono 16-bit PCM WAV file holding `samples`
/// samples at `rate` Hz: `RIFF` chunk, `fmt ` chunk (PCM, one channel,
/// block align 2, 16 bits) and the `data` chunk header.
pub open spec fn wav_header_bytes(samples: nat, rate: nat) -> Seq<u8> {
    tag('R', 'I', 'F', 'F') + le32(36 + 2 * samples) + tag('W', 'A', 'V', 'E') + tag('f', 'm', 't', ' ') + le32(
        16,
    ) + le16(1) + le16(1) + le32(rate) + le32(2 * rate) + le16(2) + le16(16) + tag('d', 'a', 't', 'a') + le32(
        2 * samples,
    )
}

/// The two's-complement bits of a sample.
pub open spec fn sample_bits(v: i16) -> nat {
    if v < 0 {
        (v + 65536) as nat
    } else {
        v as nat
    }
}

/// The little-endian bytes of the samples, in order.
pub open spec fn pcm_bytes(samples: Seq<i16>) -> Seq<u8>
    decreases samples.len(),
{
    if samples.len() == 0 {
        Seq::empty()
    } else {
        pcm_bytes(samples.drop_last()) + le16(sample_bits(samples.last()))
    }
}

fn push_le16(out: &mut Vec<u8>, x: u32)
    requires
        x < 65536,
    ensures
        final(out)@ == old(out)@ + le16(x as nat),
{
    out.push((x % 256) as u8);
    out.push((x / 256) as u8);
    assert(final(out)@ =~= old(out)@ + le16(x as nat));
}

fn push_le32(out: &mut Vec<u8>, x: u32)
    ensures
        final(out)@ == old(out)@ + le32(x as nat),
{
    out.push((x % 256) as u8);
    out.push(((x / 256) % 256) as u8);
    out.push(((x / 65536) % 256) as u8);
    out.push((x / 16777216) as u8);
    assert(final(out)@ =~= old(out)@ + le32(x as nat));
}

fn push_tag(out: &mut Vec<u8>, a: u8, b: u8, c: u8, d: u8)
    ensures
        final(out)@ == old(out)@ + seq![a, b, c, d],
{
    out.push(a);
    out.push(b);
    out.push(c);
    out.push(d);
    assert(final(out)@ =~= old(out)@ + seq![a, b, c, d]);
}

/// A mono 16-bit PCM WAV file: the 44-byte header for `samples.len()`
/// samples at `sample_rate` Hz, then each sample little-endian. The bounds
/// keep the header's 32-bit sizes from overflowing.
pub fn encode_wav_pcm16(samples: &[i16], sample_rate: u32) -> (r: Vec<u8>)
    requires
        2 * sample_rate <= u32::MAX,
        36 + 2 * samples@.len() <= u32::MAX,
    ensures
        r@ == wav_header_bytes(samples@.len(), sample_rate as nat) + pcm_bytes(samples@),
        r@.len() == 44 + 2 * samples@.len(),
{
    let n = samples.len();
    let data_len: u32 = (2 * n) as u32;
    let mut out: Vec<u8> = Vec::new();
    push_tag(&mut out, 82, 73, 70, 70);
    push_le32(&mut out, 36 + data_len);
    push_tag(&mut out, 87, 65, 86, 69);
    push_tag(&mut out, 102, 109, 116, 32);
    push_le32(&mut out, 16);
    push_le16(&mut out, 1);
    push_le16(&mut out, 1);
    push_le32(&mut out, sample_rate);
    push_le32(&mut out, 2 * sample_rate);
    push_le16(&mut out, 2);
    push_le16(&mut out, 16);
    push_tag(&mut out, 100, 97, 116, 97);
    push_le32(&mut out, data_len);
    let ghost header = out@;
    assert(header =~= wav_header_bytes(n as nat, sample_rate as nat));
    let mut i: usize = 0;
    while i < n
        invariant
            n == samples@.len(),
            0 <= i <= n,
            out@ == header + pcm_bytes(samples@.take(i as int)),
        decreases n - i,
    {
        let v = samples[i];
        let bits: u32 = if v < 0 { (v as i32 + 65536) as u32 } else { v as u32 };
        push_le16(&mut out, bits);
        proof {
            let t = samples@.take(i + 1);
            assert(t.drop_last() =~= samples@.take(i as int));
            assert(t.last() == v);
            assert(out@ =~= header + pcm_bytes(t));
        }
        i += 1;
    }
    assert(samples@.take(n as int) =~= samples@);
    proof {
        lemma_pcm_len(samples@);
    }
    out
}

proof fn lemma_pcm_len(s: Seq<i16>)
    ensures
        pcm_bytes(s).len() == 2 * s.len(),
    decreases s.len(),
{
    if s.len() > 0 {
        lemma_pcm_len(s.drop_last());
    }
}

// ---------------------------------------------------------------------------
// Music library
// ---------------------------------------------------------------------------

/// What `str::to_lowercase` returns for the given characters.
pub uninterp spec fn unicode_lowercase(s: Seq<char>) -> Seq<char>;

/// `str::to_lowercase` (std). Claimed: the result is the one the name
/// `unicode_lowercase` stands for.
#[verifier::external_body]
fn lowercase(s: &str) -> (r: String)
    ensures
        r@ == unicode_lowercase(s@),
{
    s.to_lowercase()
}

/// The file extensions of supported audio formats.
pub open spec fn audio_extension_list() -> Seq<Seq<char>> {
    seq!["mp3"@, "flac"@, "ogg"@, "m4a"@, "wav"@, "opus"@, "wma"@, "aac"@]
}

/// Whether a file extension (in any case) is a supported audio format.
pub fn is_audio_extension(ext: &str) -> (r: bool)
    ensures
        r == audio_extension_list().contains(unicode_lowercase(ext@)),
{
    let l = lowercase(ext);
    let e = l.as_str();
    assert(e@ == unicode_lowercase(ext@));
    let known = ["mp3", "flac", "ogg", "m4a", "wav", "opus", "wma", "aac"];
    let ghost list = audio_extension_list();
    assert(known@.map_values(|s: &str| s@) =~= list);
    let mut i: usize = 0;
    while i < 8
        invariant
            0 <= i <= 8,
            known@.len() == 8,
            known@.map_values(|s: &str| s@) == list,
            list == audio_extension_list(),
            e@ == unicode_lowercase(ext@),
            forall|j: int| 0 <= j < i ==> list[j] != e@,
        decreases 8 - i,
    {
        if str_eq(known[i], e) {
            assert(list[i as int] == e@);
            assert(list.contains(e@));
            return true;
        }
        i += 1;
    }
    false
}

/// What `<str as Hash>::hash` leaves in a hasher that held the given writes.
pub uninterp spec fn str_hash_writes(before: Seq<Seq<u8>>, s: Seq<char>) -> Seq<Seq<u8>>;

/// `<str as Hash>::hash` into a `DefaultHasher` (std). Claimed: the hasher's
/// writes afterwards are a function of its writes before and the string.
#[verifier::external_body]
fn hash_str_into(s: &str, h: &mut DefaultHasher)
    ensures
        final(h)@ == str_hash_writes(old(h)@, s@),
{
    s.hash(h);
}

/// A track's id: the `DefaultHasher` hash of its path, the same for the same
/// path.
pub fn path_id(path: &str) -> (r: u64)
    ensures
        r == DefaultHasher::spec_finish(str_hash_writes(Seq::empty(), path@)),
{
    let mut h = DefaultHasher::new();
    hash_str_into(path, &mut h);
    h.finish()
}

/// What the library is ordered by for one track: its artist, album and
/// track number as read from its tags.
#[derive(Clone, Debug)]
pub struct TrackKey {
    pub artist: Option<String>,
    pub album: Option<String>,
    pub track_number: Option<u32>,
}

/// The text of an optional tag, empty when absent.
pub open spec fn tag_text(t: Option<String>) -> Seq<char> {
    match t {
        Some(s) => s@,
        None => Seq::empty(),
    }
}

/// The sort key of a track: lowercased artist, album, track number.
pub open spec fn track_sort_key(k: TrackKey) -> (Seq<char>, Seq<char>, Option<u32>) {
    (unicode_lowercase(tag_text(k.artist)), tag_text(k.album), k.track_number)
}

/// `Option<u32>`'s order: absent first, then by number.
pub open spec fn opt_le(a: Option<u32>, b: Option<u32>) -> bool {
    match (a, b) {
        (None, _) => true,
        (Some(_), None) => false,
        (Some(x), Some(y)) => x <= y,
    }
}

/// Library order: by lowercased artist, then album, then track number.
pub open spec fn track_le(a: (Seq<char>, Seq<char>, Option<u32>), b: (Seq<char>, Seq<char>, Option<u32>)) -> bool {
    if a.0 != b.0 {
        lex_le(a.0, b.0)
    } else if a.1 != b.1 {
        lex_le(a.1, b.1)
    } else {
        opt_le(a.2, b.2)
    }
}

proof fn lemma_track_total(a: (Seq<char>, Seq<char>, Option<u32>), b: (Seq<char>, Seq<char>, Option<u32>))
    ensures
        track_le(a, b) || track_le(b, a),
{
    lemma_lex_total(a.0, b.0);
    lemma_lex_total(a.1, b.1);
}

proof fn lemma_track_trans(
    a: (Seq<char>, Seq<char>, Option<u32>),
    b: (Seq<char>, Seq<char>, Option<u32>),
    c: (Seq<char>, Seq<char>, Option<u32>),
)
    requires
        track_le(a, b),
        track_le(b, c),
    ensures
        track_le(a, c),
{
    if a.0 != b.0 && b.0 != c.0 {
        lemma_lex_trans(a.0, b.0, c.0);
        if a.0 == c.0 {
            lemma_lex_antisym(a.0, b.0);
        }
    } else if a.0 == b.0 && b.0 == c.0 {
        if a.1 != b.1 && b.1 != c.1 {
            lemma_lex_trans(a.1, b.1, c.1);
            if a.1 == c.1 {
                lemma_lex_antisym(a.1, b.1);
            }
        }
    }
}

fn opt_text(t: &Option<String>) -> (r: &str)
    ensures
        r@ == tag_text(*t),
{
    match t {
        Some(s) => s.as_str(),
        None => {
            proof { reveal_strlit(""); }
            ""
        },
    }
}

fn sort_key_exec(k: &TrackKey) -> (r: (String, String, Option<u32>))
    ensures
        (r.0@, r.1@, r.2) == track_sort_key(*k),
{
    (lowercase(opt_text(&k.artist)), opt_text(&k.album).to_owned(), k.track_number)
}

fn track_le_exec(a: &(String, String, Option<u32>), b: &(String, String, Option<u32>)) -> (r: bool)
    ensures
        r == track_le((a.0@, a.1@, a.2), (b.0@, b.1@, b.2)),
{
    if !str_eq(a.0.as_str(), b.0.as_str()) {
        lex_le_exec(a.0.as_str(), b.0.as_str())
    } else if !str_eq(a.1.as_str(), b.1.as_str()) {
        lex_le_exec(a.1.as_str(), b.1.as_str())
    } else {
        match (a.2, b.2) {
            (None, _) => true,
            (Some(_), None) => false,
            (Some(x), Some(y)) => x <= y,
        }
    }
}

/// The order in which the library lists its tracks, as indices into `keys`:
/// every index once, ascending by [`track_le`] over [`track_sort_key`], and
/// tracks with equal keys in the order they were found.
pub fn track_order(keys: &Vec<TrackKey>) -> (r: Vec<usize>)
    ensures
        r@.len() == keys@.len(),
        forall|k: int| 0 <= k < r@.len() ==> r@[k] < keys@.len(),
        forall|j: usize| j < keys@.len() ==> #[trigger] r@.contains(j),
        forall|a: int, b: int| 0 <= a < b < r@.len() ==>
            track_le(track_sort_key(keys@[r@[a] as int]), track_sort_key(keys@[r@[b] as int])),
        forall|a: int, b: int| 0 <= a < b < r@.len()
            && track_sort_key(keys@[r@[a] as int]) == track_sort_key(keys@[r@[b] as int]) ==> r@[a] < r@[b],
{
    let n = keys.len();
    let mut sk: Vec<(String, String, Option<u32>)> = Vec::new();
    let mut t: usize = 0;
    while t < n
        invariant
            n == keys@.len(),
            0 <= t <= n,
            sk@.len() == t,
            forall|q: int| 0 <= q < t ==> (#[trigger] sk@[q].0@, sk@[q].1@, sk@[q].2) == track_sort_key(keys@[q]),
        decreases n - t,
    {
        sk.push(sort_key_exec(&keys[t]));
        t += 1;
    }
    let ghost key = |q: int| track_sort_key(keys@[q]);
    let mut out: Vec<usize> = Vec::new();
    let mut i: usize = 0;
    while i < n
        invariant
            n == keys@.len(),
            sk@.len() == n,
            forall|q: int| 0 <= q < n ==> (#[trigger] sk@[q].0@, sk@[q].1@, sk@[q].2) == key(q),
            key == (|q: int| track_sort_key(keys@[q])),
            0 <= i <= n,
            out@.len() == i,
            forall|k: int| 0 <= k < out@.len() ==> #[trigger] out@[k] < i,
            forall|j: usize| j < i ==> #[trigger] out@.contains(j),
            forall|a: int, b: int| 0 <= a < b < out@.len() ==>
                track_le(key(#[trigger] out@[a] as int), key(#[trigger] out@[b] as int)),
            forall|a: int, b: int| 0 <= a < b < out@.len() && key(#[trigger] out@[a] as int) == key(#[trigger] out@[b] as int)
                ==> out@[a] < out@[b],
        decreases n - i,
    {
        let mut p: usize = 0;
        while p < out.len() && track_le_exec(&sk[out[p]], &sk[i])
            invariant
                n == keys@.len(),
                sk@.len() == n,
                forall|q: int| 0 <= q < n ==> (#[trigger] sk@[q].0@, sk@[q].1@, sk@[q].2) == key(q),
                i < n,
                out@.len() == i,
                forall|k: int| 0 <= k < out@.len() ==> #[trigger] out@[k] < i,
                0 <= p <= out@.len(),
                forall|a: int| 0 <= a < p ==> track_le(key(#[trigger] out@[a] as int), key(i as int)),
            decreases out@.len() - p,
        {
            assert(sk@[out@[p as int] as int].0@ == key(out@[p as int] as int).0);
            p += 1;
        }
        let ghost before = out@;
        proof {
            if p < before.len() {
                lemma_track_total(key(before[p as int] as int), key(i as int));
            }
            assert forall|b: int| p <= b < before.len() implies track_le(key(i as int), key(#[trigger] before[b] as int))
                && key(i as int) != key(before[b] as int) by {
                if p < b {
                    lemma_track_trans(key(i as int), key(before[p as int] as int), key(before[b] as int));
                    if key(i as int) == key(before[b] as int) {
                        lemma_track_trans(key(before[p as int] as int), key(before[b] as int), key(i as int));
                    }
                }
            }
        }
        out.insert(p, i);
        proof {
            let now = out@;
            assert(now =~= before.insert(p as int, i));
            assert forall|k: int| 0 <= k < now.len() implies #[trigger] now[k] < i + 1 by {
                if k > p { assert(now[k] == before[k - 1]); }
            }
            assert forall|j: usize| j < i + 1 implies #[trigger] now.contains(j) by {
                if j == i {
                    assert(now[p as int] == i);
                } else {
                    assert(before.contains(j));
                    let w = choose|w: int| 0 <= w < before.len() && before[w] == j;
                    if w < p { assert(now[w] == j); } else { assert(now[w + 1] == j); }
                }
            }
            assert forall|a: int, b: int| 0 <= a < b < now.len() implies
                track_le(key(#[trigger] now[a] as int), key(#[trigger] now[b] as int)) by {
                if a < p && b == p {
                } else if a < p && b > p {
                    assert(now[b] == before[b - 1]);
                    lemma_track_trans(key(now[a] as int), key(i as int), key(now[b] as int));
                } else if a == p {
                    assert(now[b] == before[b - 1]);
                } else if a > p {
                    assert(now[a] == before[a - 1]);
                    assert(now[b] == before[b - 1]);
                }
            }
            assert forall|a: int, b: int| 0 <= a < b < now.len() && key(#[trigger] now[a] as int) == key(#[trigger] now[b] as int)
                implies now[a] < now[b] by {
                if a < p && b == p {
                } else if a < p && b > p {
                    assert(now[b] == before[b - 1]);
                } else if a == p {
                    assert(now[b] == before[b - 1]);
                } else if a > p {
                    assert(now[a] == before[a - 1]);
                    assert(now[b] == before[b - 1]);
                }
            }
        }
        i += 1;
    }
    out
}

} // verus!
