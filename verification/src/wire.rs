//! The request that asks a resident process for one synthesis.
//!
//! A request is the number of arguments, then for each argument the number of its UTF-8 bytes and
//! those bytes. All numbers are 32-bit, least significant byte first.
use crate::bytes::push_u32;
use crate::bytes::u32_at;
use crate::bytes::u32_bytes;
use crate::text::contains_char;
use vstd::prelude::*;
use vstd::utf8::decode_utf8;
use vstd::utf8::encode_utf8;
use vstd::utf8::valid_utf8;

verus! {

/// The most arguments that one request carries.
pub const MAX_ARGS: usize = 32;

/// The most UTF-8 bytes that the arguments of one request have together.
pub const MAX_ARG_BYTES: usize = 1_048_576;

/// The characters of each string.
pub open spec fn texts(args: Seq<String>) -> Seq<Seq<char>> {
    args.map_values(|arg: String| arg@)
}

/// The number of UTF-8 bytes of all arguments together.
pub open spec fn byte_total(args: Seq<Seq<char>>) -> nat
    decreases args.len(),
{
    if args.len() == 0 {
        0
    } else {
        byte_total(args.drop_last()) + encode_utf8(args.last()).len()
    }
}

/// Whether a request can carry `args`.
pub open spec fn sendable(args: Seq<Seq<char>>) -> bool {
    &&& 0 < args.len() <= MAX_ARGS
    &&& forall|i: int| 0 <= i < args.len() ==> !(#[trigger] args[i]).contains('\0')
    &&& byte_total(args) <= MAX_ARG_BYTES
}

/// One argument in a request.
pub open spec fn field(arg: Seq<char>) -> Seq<u8> {
    u32_bytes(encode_utf8(arg).len() as int) + encode_utf8(arg)
}

/// Arguments in a request, one after the other.
pub open spec fn fields(args: Seq<Seq<char>>) -> Seq<u8>
    decreases args.len(),
{
    if args.len() == 0 {
        seq![]
    } else {
        fields(args.drop_last()) + field(args.last())
    }
}

/// The request for `args`.
pub open spec fn request(args: Seq<Seq<char>>) -> Seq<u8> {
    u32_bytes(args.len() as int) + fields(args)
}

proof fn lemma_byte_total_grows(args: Seq<Seq<char>>, i: int)
    requires
        0 <= i <= args.len(),
    ensures
        byte_total(args.take(i)) <= byte_total(args),
    decreases args.len() - i,
{
    if i < args.len() {
        lemma_byte_total_grows(args, i + 1);
        assert(args.take(i + 1).drop_last() =~= args.take(i));
    } else {
        assert(args.take(i) =~= args);
    }
}

/// The request for `args`, or an error where a request cannot carry them.
pub fn encode_args(args: &[String]) -> (encoded: Result<Vec<u8>, String>)
    ensures
        encoded is Ok <==> sendable(texts(args@)),
        encoded matches Ok(bytes) ==> bytes@ == request(texts(args@)),
        encoded matches Err(error) ==> error@ == "invalid resident voicepeak arguments"@,
{
    let ghost all = texts(args@);
    if args.len() == 0 || args.len() > MAX_ARGS {
        return Err("invalid resident voicepeak arguments".to_owned());
    }
    let mut bytes: Vec<u8> = Vec::new();
    push_u32(&mut bytes, args.len() as u32);
    let mut total: usize = 0;
    let mut i: usize = 0;
    assert(all.take(0) =~= Seq::<Seq<char>>::empty());
    while i < args.len()
        invariant
            all == texts(args@),
            0 < args@.len() <= MAX_ARGS,
            0 <= i <= args@.len(),
            forall|j: int| 0 <= j < i ==> !(#[trigger] all[j]).contains('\0'),
            total == byte_total(all.take(i as int)),
            total <= MAX_ARG_BYTES,
            bytes@ == u32_bytes(all.len() as int) + fields(all.take(i as int)),
        decreases args.len() - i,
    {
        let arg = args[i].as_str();
        let utf8 = arg.as_bytes();
        assert(all[i as int] == arg@);
        assert(all.take(i + 1).drop_last() =~= all.take(i as int));
        if contains_char(arg, '\0') {
            return Err("invalid resident voicepeak arguments".to_owned());
        }
        if utf8.len() > MAX_ARG_BYTES - total {
            proof {
                lemma_byte_total_grows(all, i + 1);
            }
            return Err("invalid resident voicepeak arguments".to_owned());
        }
        total = total + utf8.len();
        push_u32(&mut bytes, utf8.len() as u32);
        bytes.extend_from_slice(utf8);
        assert(bytes@ =~= u32_bytes(all.len() as int) + fields(all.take(i + 1)));
        i = i + 1;
    }
    assert(all.take(i as int) =~= all);
    Ok(bytes)
}

/// Reads `count` arguments from `bytes`, beginning at `at`: the arguments and where they end, or
/// `None` where they are cut short or are not UTF-8.
pub open spec fn read_fields(bytes: Seq<u8>, at: int, count: nat) -> Option<(Seq<Seq<char>>, int)>
    decreases count,
{
    let start = at + 4;
    let end = start + u32_at(bytes, at);
    if count == 0 {
        Some((seq![], at))
    } else if start > bytes.len() || end > bytes.len() || !valid_utf8(bytes.subrange(start, end)) {
        None
    } else {
        match read_fields(bytes, end, (count - 1) as nat) {
            Some((rest, stop)) => Some((seq![decode_utf8(bytes.subrange(start, end))] + rest, stop)),
            None => None,
        }
    }
}

/// Reads one request from the start of `bytes`: its arguments and its length.
pub open spec fn read_request(bytes: Seq<u8>) -> Option<(Seq<Seq<char>>, int)> {
    if bytes.len() < 4 {
        None
    } else {
        read_fields(bytes, 4, u32_at(bytes, 0) as nat)
    }
}

proof fn lemma_fields_first(args: Seq<Seq<char>>)
    requires
        args.len() > 0,
    ensures
        fields(args) == field(args[0]) + fields(args.drop_first()),
    decreases args.len(),
{
    if args.len() == 1 {
        assert(args.drop_last() =~= Seq::<Seq<char>>::empty());
        assert(args.drop_first() =~= Seq::<Seq<char>>::empty());
        assert(fields(args) =~= field(args[0]) + fields(args.drop_first()));
    } else {
        lemma_fields_first(args.drop_last());
        assert(args.drop_last().drop_first() =~= args.drop_first().drop_last());
        assert(fields(args) =~= field(args[0]) + fields(args.drop_first()));
    }
}

proof fn lemma_byte_total_first(args: Seq<Seq<char>>)
    requires
        args.len() > 0,
    ensures
        byte_total(args) == encode_utf8(args[0]).len() + byte_total(args.drop_first()),
    decreases args.len(),
{
    if args.len() > 1 {
        lemma_byte_total_first(args.drop_last());
        assert(args.drop_last().drop_first() =~= args.drop_first().drop_last());
    } else {
        assert(args.drop_last() =~= Seq::<Seq<char>>::empty());
        assert(args.drop_first() =~= Seq::<Seq<char>>::empty());
    }
}

proof fn lemma_field_parts(bytes: Seq<u8>, at: int, arg: Seq<char>)
    requires
        0 <= at,
        at + field(arg).len() <= bytes.len(),
        bytes.subrange(at, at + field(arg).len()) == field(arg),
        encode_utf8(arg).len() <= u32::MAX,
    ensures
        u32_at(bytes, at) == encode_utf8(arg).len(),
        field(arg).len() == 4 + encode_utf8(arg).len(),
        bytes.subrange(at + 4, at + field(arg).len()) == encode_utf8(arg),
{
    let whole = bytes.subrange(at, at + field(arg).len());
    assert(whole[0] == bytes[at] && whole[1] == bytes[at + 1] && whole[2] == bytes[at + 2]
        && whole[3] == bytes[at + 3]);
    assert(bytes.subrange(at + 4, at + field(arg).len()) =~= whole.skip(4));
    assert(whole.skip(4) =~= encode_utf8(arg));
}

proof fn lemma_field_read_back(bytes: Seq<u8>, at: int, arg: Seq<char>)
    requires
        0 <= at,
        at + field(arg).len() <= bytes.len(),
        bytes.subrange(at, at + field(arg).len()) == field(arg),
        encode_utf8(arg).len() <= u32::MAX,
    ensures
        u32_at(bytes, at) == encode_utf8(arg).len(),
        valid_utf8(bytes.subrange(at + 4, at + field(arg).len())),
        decode_utf8(bytes.subrange(at + 4, at + field(arg).len())) == arg,
{
    lemma_field_parts(bytes, at, arg);
    vstd::utf8::encode_utf8_valid_utf8(arg);
    vstd::utf8::encode_utf8_decode_utf8(arg);
}

proof fn lemma_fields_read_back(before: Seq<u8>, args: Seq<Seq<char>>, after: Seq<u8>)
    requires
        byte_total(args) <= u32::MAX,
    ensures
        read_fields(before + fields(args) + after, before.len() as int, args.len()) == Some(
            (args, (before.len() + fields(args).len()) as int),
        ),
    decreases args.len(),
{
    let bytes = before + fields(args) + after;
    let at = before.len() as int;
    if args.len() == 0 {
        assert(args =~= seq![]);
    } else {
        let rest = args.drop_first();
        lemma_fields_first(args);
        lemma_byte_total_first(args);
        assert(bytes.subrange(at, at + field(args[0]).len()) =~= field(args[0]));
        lemma_field_read_back(bytes, at, args[0]);
        assert(before + field(args[0]) + fields(rest) + after =~= bytes);
        lemma_fields_read_back(before + field(args[0]), rest, after);
        assert(seq![args[0]] + rest =~= args);
    }
}

/// A request is read back as the arguments it was made from, and ends where it ended, whatever
/// follows it.
pub proof fn law_request_read_back(args: Seq<Seq<char>>, after: Seq<u8>)
    requires
        sendable(args),
    ensures
        read_request(request(args) + after) == Some((args, request(args).len() as int)),
{
    let count = u32_bytes(args.len() as int);
    let bytes = request(args) + after;
    assert(count =~= bytes.subrange(0, 4));
    assert(u32_at(bytes, 0) == u32_at(count, 0));
    lemma_fields_read_back(count, args, after);
    assert(count + fields(args) + after =~= bytes);
}

/// Requests for different arguments differ, and neither begins with the other.
pub proof fn law_requests_are_distinct(one: Seq<Seq<char>>, other: Seq<Seq<char>>, after: Seq<u8>)
    requires
        sendable(one),
        sendable(other),
        request(one) + after == request(other),
    ensures
        one == other,
        after.len() == 0,
{
    law_request_read_back(one, after);
    law_request_read_back(other, seq![]);
    assert(request(other) + Seq::<u8>::empty() =~= request(other));
}

proof fn lemma_fields_len(args: Seq<Seq<char>>)
    ensures
        fields(args).len() == 4 * args.len() + byte_total(args),
    decreases args.len(),
{
    if args.len() > 0 {
        lemma_fields_len(args.drop_last());
    }
}

/// A request has four bytes for the count, four for each argument, and the arguments' own bytes.
pub proof fn law_request_len(args: Seq<Seq<char>>)
    ensures
        request(args).len() == 4 + 4 * args.len() + byte_total(args),
{
    lemma_fields_len(args);
}

/// The texts are those of the strings, one for one.
pub proof fn law_texts_are_the_strings(args: Seq<String>)
    ensures
        texts(args).len() == args.len(),
        forall|i: int| 0 <= i < args.len() ==> #[trigger] texts(args)[i] == args[i]@,
{
}

proof fn lemma_utf8_of_joined(one: Seq<char>, other: Seq<char>)
    ensures
        encode_utf8(one + other) == encode_utf8(one) + encode_utf8(other),
    decreases one.len(),
{
    if one.len() == 0 {
        assert(one + other =~= other);
        assert(encode_utf8(one) + encode_utf8(other) =~= encode_utf8(other));
    } else {
        let rest = one.drop_first();
        lemma_utf8_of_joined(rest, other);
        assert((one + other).drop_first() =~= rest + other);
        assert(encode_utf8(one + other) =~= encode_utf8(one) + encode_utf8(other));
    }
}

proof fn lemma_flatten_last(args: Seq<Seq<char>>)
    requires
        args.len() > 0,
    ensures
        args.flatten() == args.drop_last().flatten() + args.last(),
{
    args.drop_last().lemma_flatten_push(args.last());
    assert(args.drop_last().push(args.last()) =~= args);
}

proof fn lemma_byte_total_is_of_all_text(args: Seq<Seq<char>>)
    ensures
        byte_total(args) == encode_utf8(args.flatten()).len(),
    decreases args.len(),
{
    if args.len() > 0 {
        lemma_byte_total_is_of_all_text(args.drop_last());
        lemma_flatten_last(args);
        lemma_utf8_of_joined(args.drop_last().flatten(), args.last());
    }
}

/// A list of arguments can be sent if and only if it has 1 to 32 of them, none of their characters
/// is NUL, and all their text together has at most 1048576 bytes in UTF-8.
pub proof fn law_what_can_be_sent(args: Seq<Seq<char>>)
    ensures
        sendable(args) <==> {
            &&& 1 <= args.len() <= 32
            &&& forall|i: int, k: int|
                0 <= i < args.len() && 0 <= k < args[i].len() ==> #[trigger] args[i][k] != '\0'
            &&& encode_utf8(args.flatten()).len() <= 1048576
        },
{
    lemma_byte_total_is_of_all_text(args);
    if sendable(args) {
        assert forall|i: int, k: int|
            0 <= i < args.len() && 0 <= k < args[i].len() implies #[trigger] args[i][k] != '\0' by {
            assert(!args[i].contains('\0'));
        }
    }
}

proof fn lemma_utf8_len_of_update(text: Seq<char>, k: int, c: char)
    requires
        0 <= k < text.len(),
    ensures
        encode_utf8(text.update(k, c)).len() - encode_utf8(text).len() == encode_utf8(seq![c]).len()
            - encode_utf8(seq![text[k]]).len(),
{
    let before = text.take(k);
    let after = text.skip(k + 1);
    assert(text =~= before + seq![text[k]] + after);
    assert(text.update(k, c) =~= before + seq![c] + after);
    lemma_utf8_of_joined(before + seq![text[k]], after);
    lemma_utf8_of_joined(before, seq![text[k]]);
    lemma_utf8_of_joined(before + seq![c], after);
    lemma_utf8_of_joined(before, seq![c]);
}

proof fn lemma_byte_total_of_update(args: Seq<Seq<char>>, i: int, text: Seq<char>)
    requires
        0 <= i < args.len(),
    ensures
        byte_total(args.update(i, text)) - byte_total(args) == encode_utf8(text).len()
            - encode_utf8(args[i]).len(),
    decreases args.len(),
{
    let changed = args.update(i, text);
    if i == args.len() - 1 {
        assert(changed.drop_last() =~= args.drop_last());
    } else {
        assert(changed.drop_last() =~= args.drop_last().update(i, text));
        lemma_byte_total_of_update(args.drop_last(), i, text);
    }
}

/// It makes no difference to whether a list can be sent which characters its arguments are made
/// of: any but NUL can stand in place of any other that has as many bytes in UTF-8.
pub proof fn law_characters_do_not_matter(args: Seq<Seq<char>>, i: int, k: int, c: char)
    requires
        0 <= i < args.len(),
        0 <= k < args[i].len(),
        args[i][k] != '\0',
        c != '\0',
        encode_utf8(seq![c]).len() == encode_utf8(seq![args[i][k]]).len(),
    ensures
        sendable(args.update(i, args[i].update(k, c))) == sendable(args),
{
    let text = args[i].update(k, c);
    let changed = args.update(i, text);
    lemma_utf8_len_of_update(args[i], k, c);
    lemma_byte_total_of_update(args, i, text);
    assert forall|j: int| 0 <= j < args.len() implies (#[trigger] changed[j]).contains('\0')
        == args[j].contains('\0') by {
        if j == i {
            if args[i].contains('\0') {
                let m = choose|m: int| 0 <= m < args[i].len() && args[i][m] == '\0';
                assert(text[m] == '\0');
            }
            if text.contains('\0') {
                let m = choose|m: int| 0 <= m < text.len() && text[m] == '\0';
                assert(args[i][m] == '\0');
            }
        }
    }
    if sendable(args) {
        assert(forall|j: int| 0 <= j < changed.len() ==> !(#[trigger] changed[j]).contains('\0'));
    }
    if sendable(changed) {
        assert forall|j: int| 0 <= j < args.len() implies !(#[trigger] args[j]).contains('\0') by {
            assert(!changed[j].contains('\0'));
        }
    }
}

/// Where the argument with position `i` begins in a request: after the count, and after four bytes
/// and the text of each argument before it.
pub open spec fn field_start(args: Seq<Seq<char>>, i: int) -> int {
    4 + 4 * i + encode_utf8(args.take(i).flatten()).len()
}

proof fn lemma_field_place(args: Seq<Seq<char>>, i: int)
    requires
        0 <= i < args.len(),
    ensures
        field_start(args, i) + field(args[i]).len() <= 4 + fields(args).len(),
        (u32_bytes(args.len() as int) + fields(args)).subrange(
            field_start(args, i),
            field_start(args, i) + field(args[i]).len(),
        ) == field(args[i]),
    decreases args.len(),
{
    let head = u32_bytes(args.len() as int);
    let shorter = args.drop_last();
    lemma_fields_len(shorter);
    lemma_byte_total_is_of_all_text(shorter);
    let start = field_start(args, i);
    let end = start + field(args[i]).len();
    if i == args.len() - 1 {
        assert(args.take(i) =~= shorter);
        assert((head + fields(args)).subrange(start, end) =~= field(args[i]));
    } else {
        lemma_field_place(shorter, i);
        assert(shorter.take(i) =~= args.take(i));
        let short = u32_bytes(shorter.len() as int) + fields(shorter);
        assert((head + fields(args)).subrange(start, end) =~= short.subrange(start, end));
    }
}

/// The bytes of a request, place by place: it states how many arguments it has, each argument
/// stands in its turn as the number of its bytes and the bytes, and nothing else is there.
pub proof fn law_request_layout(args: Seq<Seq<char>>, i: int)
    requires
        sendable(args),
        0 <= i < args.len(),
    ensures
        u32_at(request(args), 0) == args.len(),
        u32_at(request(args), field_start(args, i)) == encode_utf8(args[i]).len(),
        request(args).subrange(
            field_start(args, i) + 4,
            field_start(args, i) + 4 + encode_utf8(args[i]).len(),
        ) == encode_utf8(args[i]),
        request(args).len() == field_start(args, args.len() as int),
{
    let bytes = request(args);
    let start = field_start(args, i);
    lemma_fields_len(args);
    lemma_byte_total_is_of_all_text(args);
    assert(args.take(args.len() as int) =~= args);
    lemma_field_place(args, i);
    lemma_byte_total_grows(args, i + 1);
    assert(args.take(i + 1).drop_last() =~= args.take(i));
    lemma_field_parts(bytes, start, args[i]);
    lemma_count_read_back(args);
}

proof fn lemma_count_read_back(args: Seq<Seq<char>>)
    requires
        args.len() <= 32,
    ensures
        u32_at(request(args), 0) == args.len(),
{
    let count = u32_bytes(args.len() as int);
    assert(request(args).subrange(0, 4) =~= count.subrange(0, 4));
    crate::bytes::law_field_is_local(request(args), 0, count, 0);
}

} // verus!
