//! Whether an executable is the build of VOICEPEAK that a resident process can be made from.
//!
//! A resident process depends on the inside of one known build, which its first bytes give away.
use vstd::prelude::*;

verus! {

/// The identity that the linker gave to the known build.
pub const BUILD_ID: [u8; 20] = [
    0x65, 0xa2, 0xef, 0xfb, 0xee, 0x1d, 0x5d, 0x90, 0x8a, 0x73, 0x5d, 0x1b, 0x66, 0xb4, 0xaa, 0xad,
    0x20, 0x71, 0xbb, 0xc4,
];

/// Where the identity begins in the known build.
pub const BUILD_ID_AT: usize = 0x30c;

/// How many bytes of an executable have to be read: all up to the end of the identity.
pub const HEADER_LEN: usize = 0x320;

/// What a 64-bit little-endian ELF file of the current version begins with.
pub open spec fn elf_magic() -> Seq<u8> {
    seq![0x7f, 0x45, 0x4c, 0x46, 2, 1, 1]
}

/// Whether `header` begins the known build.
pub open spec fn is_supported(header: Seq<u8>) -> bool {
    &&& header.len() >= HEADER_LEN
    &&& header.take(7) == elf_magic()
    &&& header.subrange(BUILD_ID_AT as int, HEADER_LEN as int) == BUILD_ID@
}

/// Tells from its first bytes whether a file is the known build.
pub fn supported_header(header: &[u8]) -> (supported: bool)
    ensures
        supported == is_supported(header@),
{
    if header.len() < HEADER_LEN {
        return false;
    }
    let is_elf = header[0] == 0x7f && header[1] == 0x45 && header[2] == 0x4c && header[3] == 0x46
        && header[4] == 2 && header[5] == 1 && header[6] == 1;
    if !is_elf {
        assert(header@.take(7) != elf_magic()) by {
            if header@.take(7) == elf_magic() {
                assert(forall|k: int| 0 <= k < 7 ==> header@[k] == header@.take(7)[k]);
            }
        }
        return false;
    }
    assert(header@.take(7) =~= elf_magic());
    let ghost id = header@.subrange(BUILD_ID_AT as int, HEADER_LEN as int);
    let mut i: usize = 0;
    while i < 20
        invariant
            header@.len() >= HEADER_LEN,
            id == header@.subrange(BUILD_ID_AT as int, HEADER_LEN as int),
            0 <= i <= 20,
            forall|j: int| 0 <= j < i ==> id[j] == BUILD_ID@[j],
        decreases 20 - i,
    {
        assert(id[i as int] == header@[BUILD_ID_AT + i]);
        if header[BUILD_ID_AT + i] != BUILD_ID[i] {
            assert(id != BUILD_ID@);
            return false;
        }
        i = i + 1;
    }
    assert(id =~= BUILD_ID@);
    true
}

/// A build whose identity differs in any byte is refused.
pub proof fn law_other_build_is_refused(header: Seq<u8>, at: int, byte: u8)
    requires
        is_supported(header),
        0 <= at < 7 || BUILD_ID_AT <= at < HEADER_LEN,
        byte != header[at],
    ensures
        !is_supported(header.update(at, byte)),
{
    let changed = header.update(at, byte);
    if is_supported(changed) {
        if at < 7 {
            assert(changed.take(7)[at] == header.take(7)[at]);
        } else {
            let k = at - BUILD_ID_AT;
            assert(changed.subrange(BUILD_ID_AT as int, HEADER_LEN as int)[k] == header.subrange(
                BUILD_ID_AT as int,
                HEADER_LEN as int,
            )[k]);
        }
    }
}

/// A file begins the known build if and only if its first bytes reach 0x320, the seven bytes of
/// the ELF header and the twenty of the identity are there, whatever the others are.
pub proof fn law_known_build(header: Seq<u8>)
    ensures
        is_supported(header) <==> {
            &&& header.len() >= 0x320
            &&& header[0] == 0x7f && header[1] == 0x45 && header[2] == 0x4c && header[3] == 0x46
            &&& header[4] == 0x02 && header[5] == 0x01 && header[6] == 0x01
            &&& header[0x30c] == 0x65 && header[0x30d] == 0xa2 && header[0x30e] == 0xef
            &&& header[0x30f] == 0xfb && header[0x310] == 0xee && header[0x311] == 0x1d
            &&& header[0x312] == 0x5d && header[0x313] == 0x90 && header[0x314] == 0x8a
            &&& header[0x315] == 0x73 && header[0x316] == 0x5d && header[0x317] == 0x1b
            &&& header[0x318] == 0x66 && header[0x319] == 0xb4 && header[0x31a] == 0xaa
            &&& header[0x31b] == 0xad && header[0x31c] == 0x20 && header[0x31d] == 0x71
            &&& header[0x31e] == 0xbb && header[0x31f] == 0xc4
        },
{
    if header.len() >= 0x320 {
        let magic = header.take(7);
        let id = header.subrange(0x30c, 0x320);
        assert(forall|k: int| 0 <= k < 7 ==> #[trigger] magic[k] == header[k]);
        assert(forall|k: int| 0 <= k < 20 ==> #[trigger] id[k] == header[0x30c + k]);
        if is_supported(header) {
            assert(magic[0] == 0x7f && magic[1] == 0x45 && magic[2] == 0x4c && magic[3] == 0x46
                && magic[4] == 2 && magic[5] == 1 && magic[6] == 1);
            assert(id[0] == 0x65 && id[1] == 0xa2 && id[2] == 0xef && id[3] == 0xfb);
            assert(id[4] == 0xee && id[5] == 0x1d && id[6] == 0x5d && id[7] == 0x90);
            assert(id[8] == 0x8a && id[9] == 0x73 && id[10] == 0x5d && id[11] == 0x1b);
            assert(id[12] == 0x66 && id[13] == 0xb4 && id[14] == 0xaa && id[15] == 0xad);
            assert(id[16] == 0x20 && id[17] == 0x71 && id[18] == 0xbb && id[19] == 0xc4);
        } else {
            assert(magic =~= elf_magic() ==> !(id =~= BUILD_ID@));
        }
    }
}

/// Two files whose first bytes reach 0x320 and agree on those 27 bytes get the same answer.
pub proof fn law_only_magic_and_identity_count(one: Seq<u8>, other: Seq<u8>)
    requires
        one.len() >= 0x320,
        other.len() >= 0x320,
        forall|k: int| 0 <= k < 7 || 0x30c <= k < 0x320 ==> one[k] == other[k],
    ensures
        is_supported(one) == is_supported(other),
{
    assert(one.take(7) =~= other.take(7));
    assert(one.subrange(0x30c, 0x320) =~= other.subrange(0x30c, 0x320));
}

/// What the file system says of a file.
#[derive(Clone, Copy, Debug, PartialEq, Eq, Structural)]
pub struct FileInfo {
    /// Whether it is a regular file.
    pub is_file: bool,
    /// Its mode, with the permission bits.
    pub mode: u32,
}

/// Whether a file of which the file system said `info` can be run. `None` stands for a file of
/// which it said nothing.
pub open spec fn is_runnable(info: Option<FileInfo>) -> bool {
    info matches Some(file) && file.is_file && file.mode & 0o111 != 0
}

/// The position of the first candidate that can be run, among those from `from` on.
pub open spec fn first_runnable_from(candidates: Seq<Option<FileInfo>>, from: int) -> Option<int>
    decreases candidates.len() - from,
{
    if from >= candidates.len() {
        None
    } else if is_runnable(candidates[from]) {
        Some(from)
    } else {
        first_runnable_from(candidates, from + 1)
    }
}

/// Finds the first candidate that can be run.
pub fn first_runnable(candidates: &[Option<FileInfo>]) -> (found: Option<usize>)
    ensures
        match found {
            Some(i) => first_runnable_from(candidates@, 0) == Some(i as int),
            None => first_runnable_from(candidates@, 0) is None,
        },
{
    let mut i: usize = 0;
    while i < candidates.len()
        invariant
            0 <= i <= candidates@.len(),
            first_runnable_from(candidates@, 0) == first_runnable_from(candidates@, i as int),
        decreases candidates@.len() - i,
    {
        match candidates[i] {
            Some(file) => {
                if file.is_file && file.mode & 0o111 != 0 {
                    return Some(i);
                }
            },
            None => {},
        }
        i = i + 1;
    }
    None
}

proof fn lemma_first_runnable(candidates: Seq<Option<FileInfo>>, from: int)
    requires
        0 <= from <= candidates.len(),
    ensures
        match first_runnable_from(candidates, from) {
            Some(i) => {
                &&& from <= i < candidates.len()
                &&& is_runnable(candidates[i])
                &&& forall|j: int| from <= j < i ==> !is_runnable(#[trigger] candidates[j])
            },
            None => forall|j: int|
                from <= j < candidates.len() ==> !is_runnable(#[trigger] candidates[j]),
        },
    decreases candidates.len() - from,
{
    if from < candidates.len() && !is_runnable(candidates[from]) {
        lemma_first_runnable(candidates, from + 1);
    }
}

/// The candidate that is found can be run and none before it can; where none is found, none can.
pub proof fn law_first_runnable_is_first(candidates: Seq<Option<FileInfo>>)
    ensures
        match first_runnable_from(candidates, 0) {
            Some(i) => {
                &&& 0 <= i < candidates.len()
                &&& is_runnable(candidates[i])
                &&& forall|j: int| 0 <= j < i ==> !is_runnable(#[trigger] candidates[j])
            },
            None => forall|j: int|
                0 <= j < candidates.len() ==> !is_runnable(#[trigger] candidates[j]),
        },
{
    lemma_first_runnable(candidates, 0);
}

/// Whether the setting switches resident processes off. `None` stands for no setting.
pub open spec fn is_switched_off(setting: Option<Seq<char>>) -> bool {
    setting == Some("0"@)
}

/// Tells whether the setting switches resident processes off.
pub fn switched_off(setting: &Option<String>) -> (off: bool)
    ensures
        off == is_switched_off(
            match *setting {
                Some(value) => Some(value@),
                None => None,
            },
        ),
{
    match setting {
        Some(value) => *value == "0".to_owned(),
        None => false,
    }
}

/// A file can be run if and only if it is a regular file that its owner, its group or others may
/// run, whatever the other bits of its mode are.
pub proof fn law_what_can_be_run(is_file: bool, mode: u32)
    ensures
        is_runnable(Some(FileInfo { is_file, mode })) <==> is_file && (mode / 64 % 2 == 1 || mode / 8
            % 2 == 1 || mode % 2 == 1),
        !is_runnable(None),
{
    assert((mode & 0o111 != 0) <==> (mode / 64 % 2 == 1 || mode / 8 % 2 == 1 || mode % 2 == 1))
        by (bit_vector);
}

/// Resident processes are switched off by the single character `0`, and by nothing else.
pub proof fn law_what_switches_off(text: Seq<char>)
    ensures
        is_switched_off(Some(text)) <==> text.len() == 1 && text[0] == '0',
        !is_switched_off(None),
{
    reveal_strlit("0");
    if text.len() == 1 && text[0] == '0' {
        assert(text =~= "0"@);
    }
}

} // verus!
