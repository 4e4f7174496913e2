//! The samples inside a WAV file.
//!
//! A WAV file is a RIFF header of twelve bytes and then chunks. A chunk is four bytes of name, the
//! 32-bit size of its body, the body, and a padding byte where the size is odd.
use crate::bytes::read_u32;
use crate::bytes::u32_at;
use crate::bytes::u32_bytes;
use vstd::prelude::*;
use vstd::slice::slice_subrange;
use vstd::slice::slice_to_vec;

verus! {

/// A result whose bytes and message are seen as sequences.
pub open spec fn outcome(result: Result<Vec<u8>, String>) -> Result<Seq<u8>, Seq<char>> {
    match result {
        Ok(bytes) => Ok(bytes@),
        Err(error) => Err(error@),
    }
}

/// The bytes `RIFF`, which begin the file.
pub open spec fn riff_name() -> Seq<u8> {
    seq![0x52, 0x49, 0x46, 0x46]
}

/// The bytes `WAVE`, which tell a sound file from other RIFF files.
pub open spec fn wave_name() -> Seq<u8> {
    seq![0x57, 0x41, 0x56, 0x45]
}

/// The bytes `data`, the name of the chunk that holds the samples.
pub open spec fn data_name() -> Seq<u8> {
    seq![0x64, 0x61, 0x74, 0x61]
}

/// Whether `name` stands in `bytes` at `at`.
pub open spec fn named(bytes: Seq<u8>, at: int, name: Seq<u8>) -> bool {
    bytes.subrange(at, at + 4) == name
}

/// The size that the chunk at `at` states for its body.
pub open spec fn chunk_size(bytes: Seq<u8>, at: int) -> int {
    u32_at(bytes, at + 4)
}

/// Where the chunk after the one at `at` begins.
pub open spec fn chunk_end(bytes: Seq<u8>, at: int) -> int {
    at + 8 + chunk_size(bytes, at) + chunk_size(bytes, at) % 2
}

/// Where the first chunk named `data` begins, among those from `at` on.
pub open spec fn data_chunk(bytes: Seq<u8>, at: int) -> Option<int>
    decreases bytes.len() - at,
{
    if at + 8 > bytes.len() {
        None
    } else if named(bytes, at, data_name()) {
        Some(at)
    } else if chunk_end(bytes, at) > bytes.len() {
        None
    } else {
        data_chunk(bytes, chunk_end(bytes, at))
    }
}

/// The samples of the WAV file `bytes`. Where the file ends inside the samples they end there too.
pub open spec fn samples(bytes: Seq<u8>) -> Result<Seq<u8>, Seq<char>> {
    if bytes.len() < 12 || !named(bytes, 0, riff_name()) || !named(bytes, 8, wave_name()) {
        Err("not a RIFF/WAVE file"@)
    } else {
        match data_chunk(bytes, 12) {
            Some(at) => {
                let stated = at + 8 + chunk_size(bytes, at);
                let end = if stated <= bytes.len() {
                    stated
                } else {
                    bytes.len() as int
                };
                Ok(bytes.subrange(at + 8, end))
            },
            None => Err("no data chunk"@),
        }
    }
}

/// What is wrong with the chunks from `at` on, where they do not fill the file exactly.
pub open spec fn chunk_fault(bytes: Seq<u8>, at: int) -> Option<Seq<char>>
    decreases bytes.len() - at,
{
    if at >= bytes.len() {
        None
    } else if at + 8 > bytes.len() {
        Some("incomplete WAV chunk header"@)
    } else if chunk_end(bytes, at) > bytes.len() {
        Some("incomplete WAV chunk"@)
    } else {
        chunk_fault(bytes, chunk_end(bytes, at))
    }
}

/// The samples of the WAV file `bytes`, where the file is whole: it has the size that it states,
/// its chunks fill it, and there are samples of two bytes each.
pub open spec fn complete_samples(bytes: Seq<u8>) -> Result<Seq<u8>, Seq<char>> {
    if bytes.len() < 12 || u32_at(bytes, 4) + 8 != bytes.len() {
        Err("incomplete resident WAV"@)
    } else if chunk_fault(bytes, 12) is Some {
        Err(chunk_fault(bytes, 12)->0)
    } else {
        match samples(bytes) {
            Ok(pcm) => if pcm.len() == 0 || pcm.len() % 2 != 0 {
                Err("empty or incomplete resident PCM"@)
            } else {
                Ok(pcm)
            },
            Err(error) => Err(error),
        }
    }
}

fn has_name(bytes: &[u8], at: usize, a: u8, b: u8, c: u8, d: u8) -> (found: bool)
    requires
        at + 4 <= bytes@.len(),
    ensures
        found == named(bytes@, at as int, seq![a, b, c, d]),
{
    let found = bytes[at] == a && bytes[at + 1] == b && bytes[at + 2] == c && bytes[at + 3] == d;
    proof {
        let part = bytes@.subrange(at as int, at + 4);
        if found {
            assert(part =~= seq![a, b, c, d]);
        } else if part == seq![a, b, c, d] {
            assert(part[0] == a && part[1] == b && part[2] == c && part[3] == d);
        }
    }
    found
}

/// The samples of a WAV file: the body of its first `data` chunk.
pub fn extract_pcm(bytes: &[u8]) -> (pcm: Result<Vec<u8>, String>)
    ensures
        outcome(pcm) == samples(bytes@),
{
    if bytes.len() < 12 || !has_name(bytes, 0, 0x52, 0x49, 0x46, 0x46) || !has_name(
        bytes,
        8,
        0x57,
        0x41,
        0x56,
        0x45,
    ) {
        return Err("not a RIFF/WAVE file".to_owned());
    }
    let mut at: usize = 12;
    while bytes.len() - at >= 8
        invariant
            12 <= at <= bytes@.len(),
            data_chunk(bytes@, 12) == data_chunk(bytes@, at as int),
            named(bytes@, 0, riff_name()),
            named(bytes@, 8, wave_name()),
        ensures
            data_chunk(bytes@, 12) is None,
        decreases bytes@.len() - at,
    {
        let size: u32 = read_u32(bytes, at + 4);
        let left: u64 = (bytes.len() - at - 8) as u64;
        if has_name(bytes, at, 0x64, 0x61, 0x74, 0x61) {
            let end: usize = if size as u64 <= left {
                at + 8 + size as usize
            } else {
                bytes.len()
            };
            return Ok(slice_to_vec(slice_subrange(bytes, at + 8, end)));
        }
        let skipped: u64 = size as u64 + (size % 2) as u64;
        if skipped > left {
            break;
        }
        at = at + 8 + skipped as usize;
    }
    Err("no data chunk".to_owned())
}

fn find_chunk_fault(bytes: &[u8]) -> (fault: Option<String>)
    requires
        bytes@.len() >= 12,
    ensures
        fault is Some <==> chunk_fault(bytes@, 12) is Some,
        fault matches Some(error) ==> chunk_fault(bytes@, 12) == Some(error@),
{
    let mut at: usize = 12;
    while at < bytes.len()
        invariant
            12 <= at <= bytes@.len(),
            chunk_fault(bytes@, 12) == chunk_fault(bytes@, at as int),
        decreases bytes@.len() - at,
    {
        if bytes.len() - at < 8 {
            return Some("incomplete WAV chunk header".to_owned());
        }
        let size: u32 = read_u32(bytes, at + 4);
        let left: u64 = (bytes.len() - at - 8) as u64;
        let body: u64 = size as u64 + (size % 2) as u64;
        if body > left {
            return Some("incomplete WAV chunk".to_owned());
        }
        at = at + 8 + body as usize;
    }
    None
}

/// The samples of a WAV file that must be whole.
pub fn complete_pcm(bytes: &[u8]) -> (pcm: Result<Vec<u8>, String>)
    ensures
        outcome(pcm) == complete_samples(bytes@),
{
    if bytes.len() < 12 || read_u32(bytes, 4) as u64 + 8 != bytes.len() as u64 {
        return Err("incomplete resident WAV".to_owned());
    }
    match find_chunk_fault(bytes) {
        Some(fault) => Err(fault),
        None => match extract_pcm(bytes) {
            Ok(pcm) => {
                if pcm.len() == 0 || pcm.len() % 2 != 0 {
                    Err("empty or incomplete resident PCM".to_owned())
                } else {
                    Ok(pcm)
                }
            },
            Err(error) => Err(error),
        },
    }
}

/// The samples that a whole file gives are those that any reader of the file gets.
pub proof fn law_complete_samples_are_the_samples(bytes: Seq<u8>)
    requires
        complete_samples(bytes) is Ok,
    ensures
        complete_samples(bytes) == samples(bytes),
{
}

/// A whole file holds at least one sample, and no half sample.
pub proof fn law_complete_samples_are_whole(bytes: Seq<u8>)
    requires
        complete_samples(bytes) is Ok,
    ensures
        complete_samples(bytes)->Ok_0.len() >= 2,
        complete_samples(bytes)->Ok_0.len() % 2 == 0,
{
}

proof fn lemma_data_chunk_is_whole(bytes: Seq<u8>, at: int)
    requires
        chunk_fault(bytes, at) is None,
        data_chunk(bytes, at) is Some,
    ensures
        at <= data_chunk(bytes, at)->0,
        chunk_end(bytes, data_chunk(bytes, at)->0) <= bytes.len(),
        named(bytes, data_chunk(bytes, at)->0, data_name()),
    decreases bytes.len() - at,
{
    if !named(bytes, at, data_name()) {
        lemma_data_chunk_is_whole(bytes, chunk_end(bytes, at));
    }
}

/// The samples of a whole file are all that its `data` chunk states: none is cut off.
pub proof fn law_complete_samples_are_all_stated(bytes: Seq<u8>)
    requires
        complete_samples(bytes) is Ok,
    ensures
        data_chunk(bytes, 12) matches Some(at) && {
            &&& named(bytes, at, data_name())
            &&& chunk_end(bytes, at) <= bytes.len()
            &&& complete_samples(bytes)->Ok_0 == bytes.subrange(
                at + 8,
                at + 8 + chunk_size(bytes, at),
            )
        },
{
    lemma_data_chunk_is_whole(bytes, 12);
}

/// Where the end of a whole file is missing, however little of it, the file is refused.
pub proof fn law_unfinished_wav_is_refused(bytes: Seq<u8>, len: int)
    requires
        complete_samples(bytes) is Ok,
        0 <= len < bytes.len(),
    ensures
        complete_samples(bytes.take(len)) == Err::<Seq<u8>, Seq<char>>("incomplete resident WAV"@),
{
}

/// Where anything follows a whole file, the two together are refused.
pub proof fn law_overlong_wav_is_refused(bytes: Seq<u8>, more: Seq<u8>)
    requires
        complete_samples(bytes) is Ok,
        more.len() > 0,
    ensures
        complete_samples(bytes + more) == Err::<Seq<u8>, Seq<char>>("incomplete resident WAV"@),
{
}

/// A chunk.
pub open spec fn chunk(name: Seq<u8>, body: Seq<u8>) -> Seq<u8> {
    name + u32_bytes(body.len() as int) + body + Seq::new(body.len() % 2, |i: int| 0u8)
}

/// The bytes `fmt `, the name of the chunk that describes the samples.
pub open spec fn format_name() -> Seq<u8> {
    seq![0x66, 0x6d, 0x74, 0x20]
}

/// The size that the RIFF header of such a file states.
pub open spec fn riff_size(format: Seq<u8>, pcm: Seq<u8>) -> int {
    4int + chunk(format_name(), format).len() + chunk(data_name(), pcm).len()
}

/// A WAV file made of a description and samples.
pub open spec fn wav_file(format: Seq<u8>, pcm: Seq<u8>) -> Seq<u8> {
    riff_name() + u32_bytes(riff_size(format, pcm)) + wave_name() + chunk(
        format_name(),
        format,
    ) + chunk(data_name(), pcm)
}

proof fn lemma_u32_at_part(bytes: Seq<u8>, at: int, n: int)
    requires
        0 <= at,
        at + 4 <= bytes.len(),
        0 <= n <= u32::MAX,
        bytes.subrange(at, at + 4) == u32_bytes(n),
    ensures
        u32_at(bytes, at) == n,
{
    let part = bytes.subrange(at, at + 4);
    assert(part[0] == bytes[at] && part[1] == bytes[at + 1] && part[2] == bytes[at + 2] && part[3]
        == bytes[at + 3]);
}

proof fn lemma_chunk_reads_back(before: Seq<u8>, name: Seq<u8>, body: Seq<u8>, after: Seq<u8>)
    requires
        name.len() == 4,
        body.len() <= u32::MAX,
    ensures
        ({
            let bytes = before + chunk(name, body) + after;
            let at = before.len() as int;
            &&& named(bytes, at, name)
            &&& chunk_size(bytes, at) == body.len()
            &&& chunk_end(bytes, at) == at + chunk(name, body).len()
            &&& bytes.subrange(at + 8, at + 8 + chunk_size(bytes, at)) == body
        }),
{
    let bytes = before + chunk(name, body) + after;
    let at = before.len() as int;
    assert(bytes.subrange(at, at + 4) =~= name);
    assert(bytes.subrange(at + 4, at + 4 + 4) =~= u32_bytes(body.len() as int));
    lemma_u32_at_part(bytes, at + 4, body.len() as int);
    assert(bytes.subrange(at + 8, at + 8 + body.len()) =~= body);
}

/// A file that was written in full gives its samples back.
pub proof fn law_written_wav_reads_back(format: Seq<u8>, pcm: Seq<u8>)
    requires
        pcm.len() % 2 == 0,
        pcm.len() > 0,
        riff_size(format, pcm) <= u32::MAX,
    ensures
        complete_samples(wav_file(format, pcm)) == Ok::<Seq<u8>, Seq<char>>(pcm),
{
    let bytes = wav_file(format, pcm);
    let size = u32_bytes(riff_size(format, pcm));
    let head = riff_name() + size + wave_name();
    let first = chunk(format_name(), format);
    let second = chunk(data_name(), pcm);
    let at = 12 + first.len() as int;
    assert(head.len() == 12);
    assert(bytes.subrange(0, 4) =~= riff_name());
    assert(bytes.subrange(8, 12) =~= wave_name());
    assert(bytes.subrange(4, 8) =~= size);
    lemma_u32_at_part(bytes, 4, riff_size(format, pcm));
    lemma_chunk_reads_back(head, format_name(), format, second);
    lemma_chunk_reads_back(head + first, data_name(), pcm, seq![]);
    assert(head + first + second + Seq::<u8>::empty() =~= bytes);
    assert(format_name()[0] != data_name()[0]);
    assert(chunk_fault(bytes, chunk_end(bytes, at)) is None);
    assert(chunk_fault(bytes, at) is None);
    assert(data_chunk(bytes, at) == Some(at));
}

/// A result is seen as what it holds.
pub proof fn law_outcome_is_what_it_holds(bytes: Vec<u8>, error: String)
    ensures
        outcome(Ok(bytes)) == Ok::<Seq<u8>, Seq<char>>(bytes@),
        outcome(Err(error)) == Err::<Seq<u8>, Seq<char>>(error@),
{
}

/// Whether the four bytes at `at` are these.
pub open spec fn reads(bytes: Seq<u8>, at: int, a: u8, b: u8, c: u8, d: u8) -> bool {
    bytes[at] == a && bytes[at + 1] == b && bytes[at + 2] == c && bytes[at + 3] == d
}

/// Whether the file begins as a RIFF file of sound.
pub open spec fn is_sound_file(bytes: Seq<u8>) -> bool {
    &&& bytes.len() >= 12
    &&& reads(bytes, 0, 0x52, 0x49, 0x46, 0x46)
    &&& reads(bytes, 8, 0x57, 0x41, 0x56, 0x45)
}

/// Whether a chunk of samples stands at `at`.
pub open spec fn is_sound_chunk(bytes: Seq<u8>, at: int) -> bool {
    at + 8 <= bytes.len() && reads(bytes, at, 0x64, 0x61, 0x74, 0x61)
}

/// How many bytes a chunk at `at` takes up: eight, and its body rounded up to an even number.
pub open spec fn extent(bytes: Seq<u8>, at: int) -> int {
    8 + 2 * ((u32_at(bytes, at + 4) + 1) / 2)
}

/// Whether a chunk stands at `here` after which the next place is `there`.
pub open spec fn leads(bytes: Seq<u8>, here: int, there: int) -> bool {
    here + 8 <= bytes.len() && there == here + extent(bytes, here)
}

/// Places in a file, from the end of its header on, each of which is the end of a chunk at the
/// place before.
pub open spec fn is_walk(bytes: Seq<u8>, places: Seq<int>) -> bool {
    &&& bytes.len() >= 12
    &&& places.len() >= 1
    &&& places[0] == 12
    &&& places.last() <= bytes.len()
    &&& forall|i: int, j: int|
        0 <= i && j == i + 1 && j < places.len() ==> leads(
            bytes,
            #[trigger] places[i],
            #[trigger] places[j],
        )
}

/// Whether no whole chunk stands at `at`.
pub open spec fn is_stuck(bytes: Seq<u8>, at: int) -> bool {
    at + 8 > bytes.len() || at + extent(bytes, at) > bytes.len()
}

proof fn lemma_walk_order(bytes: Seq<u8>, places: Seq<int>, i: int)
    requires
        is_walk(bytes, places),
        0 <= i < places.len(),
    ensures
        12 <= places[i] <= bytes.len(),
    decreases places.len() - i,
{
    lemma_walk_above(bytes, places, i);
    if i < places.len() - 1 {
        lemma_walk_order(bytes, places, i + 1);
        assert(leads(bytes, places[i], places[i + 1]));
    }
}

proof fn lemma_walk_above(bytes: Seq<u8>, places: Seq<int>, i: int)
    requires
        is_walk(bytes, places),
        0 <= i < places.len(),
    ensures
        12 <= places[i],
    decreases i,
{
    if i > 0 {
        lemma_walk_above(bytes, places, i - 1);
        assert(leads(bytes, places[i - 1], places[i]));
    }
}

proof fn lemma_extent(bytes: Seq<u8>, at: int)
    ensures
        at + extent(bytes, at) == chunk_end(bytes, at),
{
}

proof fn lemma_reads(bytes: Seq<u8>, at: int, a: u8, b: u8, c: u8, d: u8)
    requires
        0 <= at,
        at + 4 <= bytes.len(),
    ensures
        reads(bytes, at, a, b, c, d) == named(bytes, at, seq![a, b, c, d]),
{
    let part = bytes.subrange(at, at + 4);
    assert(part[0] == bytes[at] && part[1] == bytes[at + 1] && part[2] == bytes[at + 2] && part[3]
        == bytes[at + 3]);
    if reads(bytes, at, a, b, c, d) {
        assert(part =~= seq![a, b, c, d]);
    }
    if named(bytes, at, seq![a, b, c, d]) {
        let name = seq![a, b, c, d];
        assert(name[0] == a && name[1] == b && name[2] == c && name[3] == d);
    }
}

proof fn lemma_fault_along_walk(bytes: Seq<u8>, places: Seq<int>, i: int)
    requires
        is_walk(bytes, places),
        0 <= i < places.len(),
    ensures
        chunk_fault(bytes, places[i]) == chunk_fault(bytes, places.last()),
    decreases places.len() - i,
{
    if i < places.len() - 1 {
        lemma_walk_order(bytes, places, i + 1);
        assert(leads(bytes, places[i], places[i + 1]));
        lemma_extent(bytes, places[i]);
        lemma_fault_along_walk(bytes, places, i + 1);
    }
}

proof fn lemma_data_along_walk(bytes: Seq<u8>, places: Seq<int>, i: int, d: int)
    requires
        is_walk(bytes, places),
        0 <= i <= d < places.len(),
        forall|k: int| 0 <= k < d ==> !is_sound_chunk(bytes, #[trigger] places[k]),
    ensures
        data_chunk(bytes, places[i]) == data_chunk(bytes, places[d]),
    decreases d - i,
{
    if i < d {
        lemma_walk_order(bytes, places, i);
        lemma_walk_order(bytes, places, i + 1);
        assert(leads(bytes, places[i], places[i + 1]));
        lemma_extent(bytes, places[i]);
        lemma_reads(bytes, places[i], 0x64, 0x61, 0x74, 0x61);
        assert(!is_sound_chunk(bytes, places[i]));
        lemma_data_along_walk(bytes, places, i + 1, d);
    }
}

/// From the end of its header every file can be walked, chunk by chunk, to a place where no whole
/// chunk stands.
pub proof fn law_every_file_can_be_walked(bytes: Seq<u8>)
    requires
        bytes.len() >= 12,
    ensures
        exists|places: Seq<int>|
            #[trigger] is_walk(bytes, places) && is_stuck(bytes, places.last()),
{
    let start = seq![12int];
    assert(is_walk(bytes, start));
    lemma_walk_goes_on(bytes, start);
}

proof fn lemma_walk_goes_on(bytes: Seq<u8>, so_far: Seq<int>)
    requires
        is_walk(bytes, so_far),
    ensures
        exists|places: Seq<int>|
            #[trigger] is_walk(bytes, places) && is_stuck(bytes, places.last()),
    decreases bytes.len() - so_far.last(),
{
    let at = so_far.last();
    if !is_stuck(bytes, at) {
        let longer = so_far.push(at + extent(bytes, at));
        assert forall|i: int, j: int|
            0 <= i && j == i + 1 && j < longer.len() implies leads(
            bytes,
            #[trigger] longer[i],
            #[trigger] longer[j],
        ) by {
            if j < so_far.len() {
                assert(leads(bytes, so_far[i], so_far[j]));
            }
        }
        lemma_walk_goes_on(bytes, longer);
    }
}

/// A file that has not the size that it states is refused for that.
pub proof fn law_size_has_to_match(bytes: Seq<u8>)
    requires
        bytes.len() < 12 || u32_at(bytes, 4) + 8 != bytes.len(),
    ensures
        complete_samples(bytes) == Err::<Seq<u8>, Seq<char>>("incomplete resident WAV"@),
{
}

/// A file of the right size whose chunks end before it does is refused: for the name and size of a
/// chunk where fewer than eight bytes are left, else for a body that is cut short.
pub proof fn law_chunks_have_to_fill_the_file(bytes: Seq<u8>, places: Seq<int>)
    requires
        u32_at(bytes, 4) + 8 == bytes.len(),
        is_walk(bytes, places),
        is_stuck(bytes, places.last()),
        places.last() < bytes.len(),
    ensures
        bytes.len() - places.last() < 8 ==> complete_samples(bytes) == Err::<Seq<u8>, Seq<char>>(
            "incomplete WAV chunk header"@,
        ),
        bytes.len() - places.last() >= 8 ==> complete_samples(bytes) == Err::<Seq<u8>, Seq<char>>(
            "incomplete WAV chunk"@,
        ),
{
    lemma_walk_order(bytes, places, places.len() - 1);
    lemma_fault_along_walk(bytes, places, 0);
    lemma_extent(bytes, places.last());
}

/// A file of the right size that its chunks fill gives the body of its first chunk of samples, and
/// is refused only where that body is empty or odd.
pub proof fn law_filled_file_gives_its_samples(bytes: Seq<u8>, places: Seq<int>, d: int)
    requires
        u32_at(bytes, 4) + 8 == bytes.len(),
        is_sound_file(bytes),
        is_walk(bytes, places),
        places.last() == bytes.len(),
        0 <= d < places.len() - 1,
        is_sound_chunk(bytes, places[d]),
        forall|k: int| 0 <= k < d ==> !is_sound_chunk(bytes, #[trigger] places[k]),
    ensures
        ({
            let size = u32_at(bytes, places[d] + 4);
            complete_samples(bytes) == if size == 0 || size % 2 == 1 {
                Err::<Seq<u8>, Seq<char>>("empty or incomplete resident PCM"@)
            } else {
                Ok(bytes.subrange(places[d] + 8, places[d] + 8 + size))
            }
        }),
{
    lemma_walk_order(bytes, places, d);
    lemma_walk_order(bytes, places, d + 1);
    assert(leads(bytes, places[d], places[d + 1]));
    lemma_fault_along_walk(bytes, places, 0);
    law_samples_are_the_first_body(bytes, places, d);
}

/// A file of the right size that its chunks fill, without samples or of another kind, is refused
/// as any reader refuses it.
pub proof fn law_filled_file_without_samples_is_refused(bytes: Seq<u8>, places: Seq<int>)
    requires
        u32_at(bytes, 4) + 8 == bytes.len(),
        is_walk(bytes, places),
        places.last() == bytes.len(),
        !is_sound_file(bytes) || forall|k: int|
            0 <= k < places.len() ==> !is_sound_chunk(bytes, #[trigger] places[k]),
    ensures
        complete_samples(bytes) == Err::<Seq<u8>, Seq<char>>(
            if is_sound_file(bytes) {
                "no data chunk"@
            } else {
                "not a RIFF/WAVE file"@
            },
        ),
{
    lemma_fault_along_walk(bytes, places, 0);
    if is_sound_file(bytes) {
        law_no_samples(bytes, places);
    } else {
        law_other_file_is_refused(bytes);
    }
}

proof fn lemma_sound_file(bytes: Seq<u8>)
    ensures
        is_sound_file(bytes) <==> bytes.len() >= 12 && named(bytes, 0, riff_name()) && named(
            bytes,
            8,
            wave_name(),
        ),
{
    if bytes.len() >= 12 {
        lemma_reads(bytes, 0, 0x52, 0x49, 0x46, 0x46);
        lemma_reads(bytes, 8, 0x57, 0x41, 0x56, 0x45);
    }
}

/// What does not begin as a RIFF file of sound has no samples to read.
pub proof fn law_other_file_is_refused(bytes: Seq<u8>)
    requires
        !is_sound_file(bytes),
    ensures
        samples(bytes) == Err::<Seq<u8>, Seq<char>>("not a RIFF/WAVE file"@),
{
    lemma_sound_file(bytes);
}

/// The samples of a file of any length are the body of its first chunk of samples, wherever that
/// stands, up to the size that it states or to the end of the file.
pub proof fn law_samples_are_the_first_body(bytes: Seq<u8>, places: Seq<int>, d: int)
    requires
        is_sound_file(bytes),
        is_walk(bytes, places),
        0 <= d < places.len(),
        is_sound_chunk(bytes, places[d]),
        forall|k: int| 0 <= k < d ==> !is_sound_chunk(bytes, #[trigger] places[k]),
    ensures
        ({
            let start = places[d] + 8;
            let size = u32_at(bytes, places[d] + 4);
            let left = bytes.len() - start;
            samples(bytes) == Ok::<Seq<u8>, Seq<char>>(
                bytes.skip(start).take(
                    if size < left {
                        size
                    } else {
                        left
                    },
                ),
            )
        }),
        samples(bytes)->Ok_0.len() <= u32_at(bytes, places[d] + 4),
        places[d] + 8 + u32_at(bytes, places[d] + 4) <= bytes.len() ==> samples(bytes) == Ok::<
            Seq<u8>,
            Seq<char>,
        >(bytes.subrange(places[d] + 8, places[d] + 8 + u32_at(bytes, places[d] + 4))),
{
    let start = places[d] + 8;
    let size = u32_at(bytes, places[d] + 4);
    lemma_sound_file(bytes);
    lemma_walk_order(bytes, places, d);
    lemma_data_along_walk(bytes, places, 0, d);
    lemma_reads(bytes, places[d], 0x64, 0x61, 0x74, 0x61);
    assert(data_chunk(bytes, 12) == Some(places[d]));
    let left = bytes.len() - start;
    let n = if size < left {
        size
    } else {
        left
    };
    assert(bytes.skip(start).take(n) =~= bytes.subrange(start, start + n));
}

/// Where no chunk of samples is met on the way through a file, it has none.
pub proof fn law_no_samples(bytes: Seq<u8>, places: Seq<int>)
    requires
        is_sound_file(bytes),
        is_walk(bytes, places),
        is_stuck(bytes, places.last()),
        forall|k: int| 0 <= k < places.len() ==> !is_sound_chunk(bytes, #[trigger] places[k]),
    ensures
        samples(bytes) == Err::<Seq<u8>, Seq<char>>("no data chunk"@),
{
    let last = places.len() - 1;
    lemma_sound_file(bytes);
    lemma_walk_order(bytes, places, last);
    lemma_data_along_walk(bytes, places, 0, last);
    lemma_extent(bytes, places.last());
    assert(!is_sound_chunk(bytes, places[last]));
    if places.last() + 8 <= bytes.len() {
        lemma_reads(bytes, places.last(), 0x64, 0x61, 0x74, 0x61);
    }
}

/// A file that is made of a description and samples gives the samples to any reader, however many
/// there are.
pub proof fn law_written_wav_is_read(format: Seq<u8>, pcm: Seq<u8>)
    requires
        format.len() <= u32::MAX,
        pcm.len() <= u32::MAX,
    ensures
        samples(wav_file(format, pcm)) == Ok::<Seq<u8>, Seq<char>>(pcm),
{
    let bytes = wav_file(format, pcm);
    let head = riff_name() + u32_bytes(riff_size(format, pcm)) + wave_name();
    let first = chunk(format_name(), format);
    let second = chunk(data_name(), pcm);
    let at = 12 + first.len() as int;
    assert(head.len() == 12);
    assert(bytes.subrange(0, 4) =~= riff_name());
    assert(bytes.subrange(8, 12) =~= wave_name());
    lemma_chunk_reads_back(head, format_name(), format, second);
    lemma_chunk_reads_back(head + first, data_name(), pcm, seq![]);
    assert(head + first + second + Seq::<u8>::empty() =~= bytes);
    assert(format_name()[0] != data_name()[0]);
    assert(data_chunk(bytes, at) == Some(at));
}

} // verus!
