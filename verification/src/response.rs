//! The responses the server sends back to a client: an 18-byte tag that names the kind of
//! response, the epic and story it concerns and the length of its data, followed by the data.

use vstd::prelude::*;
use crate::models::{BytesEncode, TagDecoding, TagEncoding};
use crate::utils::{zeros, lemma_u32_byte_of, AsBytes, append_bytes, le_bytes, le_u32_of, parse_4_bytes, pow256, lemma_le_bytes_roundtrip};

verus! {

/// A response to an `Event` sent by a client.
#[derive(Debug)]
pub enum Response {
    /// A client connected; holds the records of the database's epics.
    ClientAddedOk(Vec<u8>),
    /// A client that was already connected connected again.
    ClientAlreadyExists,
    /// An epic was added; holds its id and the records of the database's epics.
    AddedEpicOk(u32, Vec<u8>),
    /// An epic was deleted; holds its id and the records of the database's epics.
    DeletedEpicOk(u32, Vec<u8>),
    /// An epic was found; holds its id and its bytes.
    GetEpicOk(u32, Vec<u8>),
    /// An epic's status was updated; holds its id and its bytes.
    EpicStatusUpdateOk(u32, Vec<u8>),
    /// No epic has the id asked for; holds the id and the records of the database's epics.
    EpicDoesNotExist(u32, Vec<u8>),
    /// A story was found; holds its id and its bytes.
    GetStoryOk(u32, Vec<u8>),
    /// The epic holds no story with the id asked for; holds the epic id, the story id and the
    /// bytes of the epic.
    StoryDoesNotExist(u32, u32, Vec<u8>),
    /// A story was added; holds the epic id, the story id and the bytes of the epic.
    AddedStoryOk(u32, u32, Vec<u8>),
    /// A story was deleted; holds the epic id, the story id and the bytes of the epic.
    DeletedStoryOk(u32, u32, Vec<u8>),
    /// A story's status was updated; holds the epic id, the story id and the bytes of the
    /// epic.
    StoryStatusUpdateOk(u32, u32, Vec<u8>),
    /// The request could not be parsed.
    RequestNotParsed,
}

/// The `i`-th byte (counting from the least significant one) of `v`.
pub open spec fn byte64_of(v: u64, i: int) -> u8 {
    ((v as int / pow256(i)) % 256) as u8
}

/// The seven low little-endian bytes of `v`.
pub open spec fn le_bytes7(v: u64) -> Seq<u8> {
    seq![
        byte64_of(v, 0),
        byte64_of(v, 1),
        byte64_of(v, 2),
        byte64_of(v, 3),
        byte64_of(v, 4),
        byte64_of(v, 5),
        byte64_of(v, 6),
    ]
}

/// The value of eight bytes read as an unsigned little-endian integer.
pub open spec fn le_u64_of(s: Seq<u8>) -> int {
    s[0] + 256 * s[1] + 65536 * s[2] + 16777216 * s[3] + 4294967296 * s[4] + 1099511627776 * s[5]
        + 281474976710656 * s[6] + 72057594037927936 * s[7]
}

/// A response tag: the two kind bytes, the epic id (or four zeros), the story id (or four
/// zeros), the seven low bytes of the data length (or seven zeros), and a zero byte.
pub open spec fn response_tag(
    b0: u8,
    b1: u8,
    epic_id: Option<u32>,
    story_id: Option<u32>,
    data_len: Option<u64>,
) -> Seq<u8> {
    seq![b0, b1] + match epic_id {
        Some(e) => le_bytes(e),
        None => zeros(4),
    } + match story_id {
        Some(s) => le_bytes(s),
        None => zeros(4),
    } + match data_len {
        Some(l) => le_bytes7(l),
        None => zeros(7),
    } + seq![0u8]
}

/// The data a response carries.
pub open spec fn response_data(r: Response) -> Seq<u8> {
    match r {
        Response::ClientAddedOk(d) => d@,
        Response::ClientAlreadyExists => Seq::empty(),
        Response::AddedEpicOk(_, d) => d@,
        Response::DeletedEpicOk(_, d) => d@,
        Response::GetEpicOk(_, d) => d@,
        Response::EpicStatusUpdateOk(_, d) => d@,
        Response::EpicDoesNotExist(_, d) => d@,
        Response::GetStoryOk(_, d) => d@,
        Response::StoryDoesNotExist(_, _, d) => d@,
        Response::AddedStoryOk(_, _, d) => d@,
        Response::DeletedStoryOk(_, _, d) => d@,
        Response::StoryStatusUpdateOk(_, _, d) => d@,
        Response::RequestNotParsed => Seq::empty(),
    }
}

/// The tag of a response.
pub open spec fn response_encoding(r: Response) -> Seq<u8> {
    let len = Some(response_data(r).len() as u64);
    match r {
        Response::ClientAddedOk(_) => response_tag(128, 1, None, None, len),
        Response::ClientAlreadyExists => response_tag(0, 2, None, None, None),
        Response::AddedEpicOk(e, _) => response_tag(128, 4, Some(e), None, len),
        Response::DeletedEpicOk(e, _) => response_tag(128, 8, Some(e), None, len),
        Response::GetEpicOk(e, _) => response_tag(128, 16, Some(e), None, len),
        Response::EpicStatusUpdateOk(e, _) => response_tag(128, 32, Some(e), None, len),
        Response::EpicDoesNotExist(e, _) => response_tag(128, 64, Some(e), None, len),
        Response::GetStoryOk(s, _) => response_tag(128, 128, None, Some(s), len),
        Response::StoryDoesNotExist(e, s, _) => response_tag(129, 0, Some(e), Some(s), len),
        Response::AddedStoryOk(e, s, _) => response_tag(130, 0, Some(e), Some(s), len),
        Response::DeletedStoryOk(e, s, _) => response_tag(132, 0, Some(e), Some(s), len),
        Response::StoryStatusUpdateOk(e, s, _) => response_tag(136, 0, Some(e), Some(s), len),
        Response::RequestNotParsed => response_tag(16, 0, None, None, None),
    }
}

/// The kind of a response tag: its first byte above its second.
pub open spec fn tag_kind(tag: Seq<u8>) -> u16 {
    (tag[0] as int * 256 + tag[1] as int) as u16
}

/// Whether a kind names an epic id: any of bits 2 to 6 and 8 to 11.
pub open spec fn kind_names_epic(t: u16) -> bool {
    t & 0x0F7C != 0
}

/// Whether a kind names a story id: any of bits 7 to 11.
pub open spec fn kind_names_story(t: u16) -> bool {
    t & 0x0F80 != 0
}

/// Whether a kind carries data: bit 15.
pub open spec fn kind_has_data(t: u16) -> bool {
    t & 0x8000 != 0
}

/// The decoded fields of a response tag: its kind, its epic id, its story id and its data
/// length, each field that the kind does not name being zero.
pub open spec fn decoded_tag(tag: Seq<u8>) -> (u16, u32, u32, u64) {
    let t = tag_kind(tag);
    (
        t,
        if kind_names_epic(t) { le_u32_of(tag.subrange(2, 6)) as u32 } else { 0 },
        if kind_names_story(t) { le_u32_of(tag.subrange(6, 10)) as u32 } else { 0 },
        if kind_has_data(t) { le_u64_of(tag.subrange(10, 18)) as u64 } else { 0 },
    )
}

/// The bytes that shifting and masking take out of a `u64` are its base-256 digits.
proof fn lemma_u64_shift_bytes(v: u64)
    ensures
        (v & 0xff) as u8 == (v % 256) as u8,
        ((v >> 8u64) & 0xff) as u8 == ((v / 256) % 256) as u8,
        ((v >> 16u64) & 0xff) as u8 == ((v / 65536) % 256) as u8,
        ((v >> 24u64) & 0xff) as u8 == ((v / 16777216) % 256) as u8,
        ((v >> 32u64) & 0xff) as u8 == ((v / 4294967296) % 256) as u8,
        ((v >> 40u64) & 0xff) as u8 == ((v / 1099511627776) % 256) as u8,
        ((v >> 48u64) & 0xff) as u8 == ((v / 281474976710656) % 256) as u8,
{
    assert((v & 0xff) as u8 == (v % 256) as u8) by (bit_vector);
    assert(((v >> 8u64) & 0xff) as u8 == ((v / 256) % 256) as u8) by (bit_vector);
    assert(((v >> 16u64) & 0xff) as u8 == ((v / 65536) % 256) as u8) by (bit_vector);
    assert(((v >> 24u64) & 0xff) as u8 == ((v / 16777216) % 256) as u8) by (bit_vector);
    assert(((v >> 32u64) & 0xff) as u8 == ((v / 4294967296) % 256) as u8) by (bit_vector);
    assert(((v >> 40u64) & 0xff) as u8 == ((v / 1099511627776) % 256) as u8) by (bit_vector);
    assert(((v >> 48u64) & 0xff) as u8 == ((v / 281474976710656) % 256) as u8) by (bit_vector);
}

/// XOR into a zero byte sets the byte.
proof fn lemma_xor_zero()
    ensures
        forall|x: u8| #[trigger] (0u8 ^ x) == x,
{
    assert(forall|x: u8| #[trigger] (0u8 ^ x) == x) by (bit_vector);
}

/// The flags that the kind of each response sets: whether it names an epic id, a story id,
/// and a data length.
proof fn lemma_kind_flags()
    ensures
        !kind_names_epic(0x8001) && !kind_names_story(0x8001) && kind_has_data(0x8001),
        !kind_names_epic(0x0002) && !kind_names_story(0x0002) && !kind_has_data(0x0002),
        kind_names_epic(0x8004) && !kind_names_story(0x8004) && kind_has_data(0x8004),
        kind_names_epic(0x8008) && !kind_names_story(0x8008) && kind_has_data(0x8008),
        kind_names_epic(0x8010) && !kind_names_story(0x8010) && kind_has_data(0x8010),
        kind_names_epic(0x8020) && !kind_names_story(0x8020) && kind_has_data(0x8020),
        kind_names_epic(0x8040) && !kind_names_story(0x8040) && kind_has_data(0x8040),
        !kind_names_epic(0x8080) && kind_names_story(0x8080) && kind_has_data(0x8080),
        kind_names_epic(0x8100) && kind_names_story(0x8100) && kind_has_data(0x8100),
        kind_names_epic(0x8200) && kind_names_story(0x8200) && kind_has_data(0x8200),
        kind_names_epic(0x8400) && kind_names_story(0x8400) && kind_has_data(0x8400),
        kind_names_epic(0x8800) && kind_names_story(0x8800) && kind_has_data(0x8800),
        !kind_names_epic(0x1000) && !kind_names_story(0x1000) && !kind_has_data(0x1000),
{
    assert(
        (!kind_names_epic(0x8001) && !kind_names_story(0x8001) && kind_has_data(0x8001)) &&
        (!kind_names_epic(0x0002) && !kind_names_story(0x0002) && !kind_has_data(0x0002)) &&
        (kind_names_epic(0x8004) && !kind_names_story(0x8004) && kind_has_data(0x8004)) &&
        (kind_names_epic(0x8008) && !kind_names_story(0x8008) && kind_has_data(0x8008)) &&
        (kind_names_epic(0x8010) && !kind_names_story(0x8010) && kind_has_data(0x8010)) &&
        (kind_names_epic(0x8020) && !kind_names_story(0x8020) && kind_has_data(0x8020)) &&
        (kind_names_epic(0x8040) && !kind_names_story(0x8040) && kind_has_data(0x8040)) &&
        (!kind_names_epic(0x8080) && kind_names_story(0x8080) && kind_has_data(0x8080)) &&
        (kind_names_epic(0x8100) && kind_names_story(0x8100) && kind_has_data(0x8100)) &&
        (kind_names_epic(0x8200) && kind_names_story(0x8200) && kind_has_data(0x8200)) &&
        (kind_names_epic(0x8400) && kind_names_story(0x8400) && kind_has_data(0x8400)) &&
        (kind_names_epic(0x8800) && kind_names_story(0x8800) && kind_has_data(0x8800)) &&
        (!kind_names_epic(0x1000) && !kind_names_story(0x1000) && !kind_has_data(0x1000))
    ) by (bit_vector);
}

/// The type of tag a `Response` is serialized into.
pub type ResponseEncodeTag = [u8; 18];

impl TagEncoding for ResponseEncodeTag {}

/// The type of tag a `Response` is deserialized from.
pub type ResponseDecodeTag = (u16, u32, u32, u64);

impl TagDecoding for ResponseDecodeTag {}

impl Response {
    /// XORs the seven low little-endian bytes of the length of `data` into bytes 10 to 16 of
    /// `buf`.
    pub fn encode_data_len(buf: &mut [u8; 18], data: &Vec<u8>)
        ensures
            forall|j: int|
                0 <= j < 18 ==> #[trigger] final(buf)@[j] == if 10 <= j < 17 {
                    old(buf)@[j] ^ byte64_of(data@.len() as u64, j - 10)
                } else {
                    old(buf)@[j]
                },
    {
        let data_len = data.len() as u64;
        buf[10] = buf[10] ^ ((data_len & 0xff) as u8);
        buf[11] = buf[11] ^ (((data_len >> 8u64) & 0xff) as u8);
        buf[12] = buf[12] ^ (((data_len >> 16u64) & 0xff) as u8);
        buf[13] = buf[13] ^ (((data_len >> 24u64) & 0xff) as u8);
        buf[14] = buf[14] ^ (((data_len >> 32u64) & 0xff) as u8);
        buf[15] = buf[15] ^ (((data_len >> 40u64) & 0xff) as u8);
        buf[16] = buf[16] ^ (((data_len >> 48u64) & 0xff) as u8);
        proof {
            reveal_with_fuel(pow256, 7);
            lemma_u64_shift_bytes(data_len);
        }
    }

    /// XORs the four little-endian bytes of `epic_id` into bytes 2 to 5 of `buf`.
    pub fn encode_epic_id(buf: &mut [u8; 18], epic_id: u32)
        ensures
            forall|j: int|
                0 <= j < 18 ==> #[trigger] final(buf)@[j] == if 2 <= j < 6 {
                    old(buf)@[j] ^ le_bytes(epic_id)[j - 2]
                } else {
                    old(buf)@[j]
                },
    {
        buf[2] = buf[2] ^ ((epic_id & 0xff) as u8);
        buf[3] = buf[3] ^ (((epic_id >> 8u32) & 0xff) as u8);
        buf[4] = buf[4] ^ (((epic_id >> 16u32) & 0xff) as u8);
        buf[5] = buf[5] ^ (((epic_id >> 24u32) & 0xff) as u8);
        proof {
            lemma_u32_byte_of(epic_id);
        }
    }

    /// XORs the four little-endian bytes of `story_id` into bytes 6 to 9 of `buf`.
    pub fn encode_story_id(buf: &mut [u8; 18], story_id: u32)
        ensures
            forall|j: int|
                0 <= j < 18 ==> #[trigger] final(buf)@[j] == if 6 <= j < 10 {
                    old(buf)@[j] ^ le_bytes(story_id)[j - 6]
                } else {
                    old(buf)@[j]
                },
    {
        buf[6] = buf[6] ^ ((story_id & 0xff) as u8);
        buf[7] = buf[7] ^ (((story_id >> 8u32) & 0xff) as u8);
        buf[8] = buf[8] ^ (((story_id >> 16u32) & 0xff) as u8);
        buf[9] = buf[9] ^ (((story_id >> 24u32) & 0xff) as u8);
        proof {
            lemma_u32_byte_of(story_id);
        }
    }
}

/// Each byte of a response tag: the kind bytes, then the bytes of the epic id, of the story
/// id and of the data length, each where the tag names it and zero elsewhere.
proof fn lemma_response_tag_index(
    b0: u8,
    b1: u8,
    epic_id: Option<u32>,
    story_id: Option<u32>,
    data_len: Option<u64>,
)
    ensures
        response_tag(b0, b1, epic_id, story_id, data_len).len() == 18,
        forall|j: int|
            0 <= j < 18 ==> #[trigger] response_tag(b0, b1, epic_id, story_id, data_len)[j] == if j
                == 0 {
                b0
            } else if j == 1 {
                b1
            } else if j < 6 {
                match epic_id {
                    Some(e) => le_bytes(e)[j - 2],
                    None => 0u8,
                }
            } else if j < 10 {
                match story_id {
                    Some(s) => le_bytes(s)[j - 6],
                    None => 0u8,
                }
            } else if j < 17 {
                match data_len {
                    Some(l) => byte64_of(l, j - 10),
                    None => 0u8,
                }
            } else {
                0u8
            },
{
}

impl BytesEncode for Response {
    type Tag = ResponseEncodeTag;

    type DecodedTag = ResponseDecodeTag;

    /// Encodes the tag of `self`: the kind of response, the ids it holds and the length of
    /// its data.
    fn encode(&self) -> (tag: ResponseEncodeTag)
        ensures
            tag@ == response_encoding(*self),
    {
        let mut encoded_tag = [0u8; 18];
        proof {
            lemma_xor_zero();
        }
        match self {
            Response::ClientAddedOk(data) => {
                encoded_tag[0] = encoded_tag[0] ^ 0x80u8;
                encoded_tag[1] = encoded_tag[1] ^ 0x01u8;
                Response::encode_data_len(&mut encoded_tag, data);
            },
            Response::ClientAlreadyExists => {
                encoded_tag[1] = encoded_tag[1] ^ 0x02u8;
            },
            Response::AddedEpicOk(epic_id, data) => {
                encoded_tag[0] = encoded_tag[0] ^ 0x80u8;
                encoded_tag[1] = encoded_tag[1] ^ 0x04u8;
                Response::encode_epic_id(&mut encoded_tag, *epic_id);
                Response::encode_data_len(&mut encoded_tag, data);
            },
            Response::DeletedEpicOk(epic_id, data) => {
                encoded_tag[0] = encoded_tag[0] ^ 0x80u8;
                encoded_tag[1] = encoded_tag[1] ^ 0x08u8;
                Response::encode_epic_id(&mut encoded_tag, *epic_id);
                Response::encode_data_len(&mut encoded_tag, data);
            },
            Response::GetEpicOk(epic_id, data) => {
                encoded_tag[0] = encoded_tag[0] ^ 0x80u8;
                encoded_tag[1] = encoded_tag[1] ^ 0x10u8;
                Response::encode_epic_id(&mut encoded_tag, *epic_id);
                Response::encode_data_len(&mut encoded_tag, data);
            },
            Response::EpicStatusUpdateOk(epic_id, data) => {
                encoded_tag[0] = encoded_tag[0] ^ 0x80u8;
                encoded_tag[1] = encoded_tag[1] ^ 0x20u8;
                Response::encode_epic_id(&mut encoded_tag, *epic_id);
                Response::encode_data_len(&mut encoded_tag, data);
            },
            Response::EpicDoesNotExist(epic_id, data) => {
                encoded_tag[0] = encoded_tag[0] ^ 0x80u8;
                encoded_tag[1] = encoded_tag[1] ^ 0x40u8;
                Response::encode_epic_id(&mut encoded_tag, *epic_id);
                Response::encode_data_len(&mut encoded_tag, data);
            },
            Response::GetStoryOk(story_id, data) => {
                encoded_tag[0] = encoded_tag[0] ^ 0x80u8;
                encoded_tag[1] = encoded_tag[1] ^ 0x80u8;
                Response::encode_story_id(&mut encoded_tag, *story_id);
                Response::encode_data_len(&mut encoded_tag, data);
            },
            Response::StoryDoesNotExist(epic_id, story_id, data) => {
                encoded_tag[0] = encoded_tag[0] ^ 0x81u8;
                Response::encode_epic_id(&mut encoded_tag, *epic_id);
                Response::encode_story_id(&mut encoded_tag, *story_id);
                Response::encode_data_len(&mut encoded_tag, data);
            },
            Response::AddedStoryOk(epic_id, story_id, data) => {
                encoded_tag[0] = encoded_tag[0] ^ 0x82u8;
                Response::encode_epic_id(&mut encoded_tag, *epic_id);
                Response::encode_story_id(&mut encoded_tag, *story_id);
                Response::encode_data_len(&mut encoded_tag, data);
            },
            Response::DeletedStoryOk(epic_id, story_id, data) => {
                encoded_tag[0] = encoded_tag[0] ^ 0x84u8;
                Response::encode_epic_id(&mut encoded_tag, *epic_id);
                Response::encode_story_id(&mut encoded_tag, *story_id);
                Response::encode_data_len(&mut encoded_tag, data);
            },
            Response::StoryStatusUpdateOk(epic_id, story_id, data) => {
                encoded_tag[0] = encoded_tag[0] ^ 0x88u8;
                Response::encode_epic_id(&mut encoded_tag, *epic_id);
                Response::encode_story_id(&mut encoded_tag, *story_id);
                Response::encode_data_len(&mut encoded_tag, data);
            },
            Response::RequestNotParsed => {
                encoded_tag[0] = encoded_tag[0] ^ 0x10u8;
            },
        }
        proof {
            let ghost r = *self;
            let ghost len = Some(response_data(r).len() as u64);
            match r {
                Response::ClientAddedOk(_) => lemma_response_tag_index(128, 1, None, None, len),
                Response::ClientAlreadyExists => lemma_response_tag_index(0, 2, None, None, None),
                Response::AddedEpicOk(e, _) => lemma_response_tag_index(128, 4, Some(e), None, len),
                Response::DeletedEpicOk(e, _) => lemma_response_tag_index(128, 8, Some(e), None, len),
                Response::GetEpicOk(e, _) => lemma_response_tag_index(128, 16, Some(e), None, len),
                Response::EpicStatusUpdateOk(e, _) => lemma_response_tag_index(128, 32, Some(e), None, len),
                Response::EpicDoesNotExist(e, _) => lemma_response_tag_index(128, 64, Some(e), None, len),
                Response::GetStoryOk(s, _) => lemma_response_tag_index(128, 128, None, Some(s), len),
                Response::StoryDoesNotExist(e, s, _) => lemma_response_tag_index(129, 0, Some(e), Some(s), len),
                Response::AddedStoryOk(e, s, _) => lemma_response_tag_index(130, 0, Some(e), Some(s), len),
                Response::DeletedStoryOk(e, s, _) => lemma_response_tag_index(132, 0, Some(e), Some(s), len),
                Response::StoryStatusUpdateOk(e, s, _) => lemma_response_tag_index(136, 0, Some(e), Some(s), len),
                Response::RequestNotParsed => lemma_response_tag_index(16, 0, None, None, None),
            }
            assert(encoded_tag@ =~= response_encoding(r));
        }
        encoded_tag
    }

    /// Decodes a response tag into its kind, its epic id, its story id and its data length;
    /// a field that the kind does not name is zero.
    fn decode(tag: &ResponseEncodeTag) -> (r: ResponseDecodeTag)
        ensures
            r == decoded_tag(tag@),
    {
        let mut type_and_flag_bytes: u16 = 0;
        let mut epic_id: u32 = 0;
        let mut story_id: u32 = 0;
        let mut data_len: u64 = 0;
        let b0 = tag[0];
        let b1 = tag[1];
        type_and_flag_bytes = type_and_flag_bytes ^ ((b0 as u16) << 8u16);
        type_and_flag_bytes = type_and_flag_bytes ^ (b1 as u16);
        let t = type_and_flag_bytes;
        assert(t == (b0 as int * 256 + b1 as int) as u16) by (bit_vector)
            requires
                t == (0u16 ^ ((b0 as u16) << 8u16)) ^ (b1 as u16),
        ;
        assert((t & 0x0004 != 0 || t & 0x0008 != 0 || t & 0x0010 != 0 || t & 0x0020 != 0 || t
            & 0x0040 != 0 || t & 0x0100 != 0 || t & 0x0200 != 0 || t & 0x0400 != 0 || t & 0x0800
            != 0) == (t & 0x0F7C != 0)) by (bit_vector);
        assert((t & 0x0080 != 0 || t & 0x0100 != 0 || t & 0x0200 != 0 || t & 0x0400 != 0 || t
            & 0x0800 != 0) == (t & 0x0F80 != 0)) by (bit_vector);
        if t & 0x0004 != 0 || t & 0x0008 != 0 || t & 0x0010 != 0 || t & 0x0020 != 0 || t & 0x0040
            != 0 || t & 0x0100 != 0 || t & 0x0200 != 0 || t & 0x0400 != 0 || t & 0x0800 != 0 {
            epic_id = parse_4_bytes(&tag[2..6]);
        }
        if t & 0x0080 != 0 || t & 0x0100 != 0 || t & 0x0200 != 0 || t & 0x0400 != 0 || t & 0x0800
            != 0 {
            story_id = parse_4_bytes(&tag[6..10]);
        }
        if t & 0x8000 != 0 {
            data_len = read_le_u64(tag, 10);
        }
        (type_and_flag_bytes, epic_id, story_id, data_len)
    }
}

/// Reads the eight bytes of `buf` that start at `at` as a little-endian `u64`.
fn read_le_u64(buf: &[u8; 18], at: usize) -> (v: u64)
    requires
        at + 8 <= 18,
    ensures
        v == le_u64_of(buf@.subrange(at as int, at + 8)),
{
    let b0 = buf[at];
    let b1 = buf[at + 1];
    let b2 = buf[at + 2];
    let b3 = buf[at + 3];
    let b4 = buf[at + 4];
    let b5 = buf[at + 5];
    let b6 = buf[at + 6];
    let b7 = buf[at + 7];
    let v: u64 = (b0 as u64) ^ ((b1 as u64) << 8u64) ^ ((b2 as u64) << 16u64) ^ ((b3 as u64)
        << 24u64) ^ ((b4 as u64) << 32u64) ^ ((b5 as u64) << 40u64) ^ ((b6 as u64) << 48u64) ^ ((
    b7 as u64) << 56u64);
    assert(v == b0 + 256 * b1 + 65536 * b2 + 16777216 * b3 + 4294967296 * b4 + 1099511627776 * b5
        + 281474976710656 * b6 + 72057594037927936 * b7) by (bit_vector)
        requires
            v == (b0 as u64) ^ ((b1 as u64) << 8u64) ^ ((b2 as u64) << 16u64) ^ ((b3 as u64)
                << 24u64) ^ ((b4 as u64) << 32u64) ^ ((b5 as u64) << 40u64) ^ ((b6 as u64)
                << 48u64) ^ ((b7 as u64) << 56u64),
    ;
    v
}

impl AsBytes for Response {
    /// Returns the response's tag followed by its data.
    fn as_bytes(&self) -> (bytes: Vec<u8>)
        ensures
            bytes@ == response_encoding(*self) + response_data(*self),
    {
        let tag = self.encode();
        let mut bytes: Vec<u8> = Vec::new();
        append_bytes(&mut bytes, tag.as_slice());
        match self {
            Response::ClientAddedOk(data) => append_bytes(&mut bytes, data.as_slice()),
            Response::ClientAlreadyExists => {},
            Response::AddedEpicOk(_, data) => append_bytes(&mut bytes, data.as_slice()),
            Response::DeletedEpicOk(_, data) => append_bytes(&mut bytes, data.as_slice()),
            Response::GetEpicOk(_, data) => append_bytes(&mut bytes, data.as_slice()),
            Response::EpicStatusUpdateOk(_, data) => append_bytes(&mut bytes, data.as_slice()),
            Response::EpicDoesNotExist(_, data) => append_bytes(&mut bytes, data.as_slice()),
            Response::GetStoryOk(_, data) => append_bytes(&mut bytes, data.as_slice()),
            Response::StoryDoesNotExist(_, _, data) => append_bytes(&mut bytes, data.as_slice()),
            Response::AddedStoryOk(_, _, data) => append_bytes(&mut bytes, data.as_slice()),
            Response::DeletedStoryOk(_, _, data) => append_bytes(&mut bytes, data.as_slice()),
            Response::StoryStatusUpdateOk(_, _, data) => append_bytes(&mut bytes, data.as_slice()),
            Response::RequestNotParsed => {},
        }
        bytes
    }
}

/// The kind of a response: the two bytes that open its tag, the first above the second.
pub open spec fn response_kind(r: Response) -> u16 {
    match r {
        Response::ClientAddedOk(_) => 0x8001,
        Response::ClientAlreadyExists => 0x0002,
        Response::AddedEpicOk(_, _) => 0x8004,
        Response::DeletedEpicOk(_, _) => 0x8008,
        Response::GetEpicOk(_, _) => 0x8010,
        Response::EpicStatusUpdateOk(_, _) => 0x8020,
        Response::EpicDoesNotExist(_, _) => 0x8040,
        Response::GetStoryOk(_, _) => 0x8080,
        Response::StoryDoesNotExist(_, _, _) => 0x8100,
        Response::AddedStoryOk(_, _, _) => 0x8200,
        Response::DeletedStoryOk(_, _, _) => 0x8400,
        Response::StoryStatusUpdateOk(_, _, _) => 0x8800,
        Response::RequestNotParsed => 0x1000,
    }
}

/// The epic id a response holds, or zero for one that holds none.
pub open spec fn response_epic_id(r: Response) -> u32 {
    match r {
        Response::AddedEpicOk(e, _) => e,
        Response::DeletedEpicOk(e, _) => e,
        Response::GetEpicOk(e, _) => e,
        Response::EpicStatusUpdateOk(e, _) => e,
        Response::EpicDoesNotExist(e, _) => e,
        Response::StoryDoesNotExist(e, _, _) => e,
        Response::AddedStoryOk(e, _, _) => e,
        Response::DeletedStoryOk(e, _, _) => e,
        Response::StoryStatusUpdateOk(e, _, _) => e,
        _ => 0,
    }
}

/// The story id a response holds, or zero for one that holds none.
pub open spec fn response_story_id(r: Response) -> u32 {
    match r {
        Response::GetStoryOk(s, _) => s,
        Response::StoryDoesNotExist(_, s, _) => s,
        Response::AddedStoryOk(_, s, _) => s,
        Response::DeletedStoryOk(_, s, _) => s,
        Response::StoryStatusUpdateOk(_, s, _) => s,
        _ => 0,
    }
}

/// Seven little-endian bytes and a zero byte read back give a value below `2^56`.
proof fn lemma_le_bytes7_roundtrip(l: u64)
    requires
        l < 0x100_0000_0000_0000,
    ensures
        le_u64_of(le_bytes7(l) + seq![0u8]) == l,
{
    reveal_with_fuel(pow256, 7);
    lemma_u64_shift_bytes(l);
    assert((l & 0xff) as u8 + 256 * (((l >> 8u64) & 0xff) as u8) + 65536 * (((l >> 16u64)
        & 0xff) as u8) + 16777216 * (((l >> 24u64) & 0xff) as u8) + 4294967296 * (((l >> 32u64)
        & 0xff) as u8) + 1099511627776 * (((l >> 40u64) & 0xff) as u8) + 281474976710656 * (((l
        >> 48u64) & 0xff) as u8) == l) by (bit_vector)
        requires
            l < 0x100_0000_0000_0000,
    ;
}

/// The fields a response tag holds read back: its kind, and the epic id, story id and data
/// length it names, or zero where it names none.
proof fn lemma_decode_response_tag(
    b0: u8,
    b1: u8,
    epic_id: Option<u32>,
    story_id: Option<u32>,
    data_len: Option<u64>,
)
    requires
        data_len matches Some(l) ==> l < 0x100_0000_0000_0000,
    ensures
        ({
            let tag = response_tag(b0, b1, epic_id, story_id, data_len);
            &&& tag_kind(tag) == (b0 * 256 + b1) as u16
            &&& le_u32_of(tag.subrange(2, 6)) == match epic_id {
                Some(e) => e,
                None => 0u32,
            }
            &&& le_u32_of(tag.subrange(6, 10)) == match story_id {
                Some(s) => s,
                None => 0u32,
            }
            &&& le_u64_of(tag.subrange(10, 18)) == match data_len {
                Some(l) => l,
                None => 0u64,
            }
        }),
{
    let tag = response_tag(b0, b1, epic_id, story_id, data_len);
    lemma_response_tag_index(b0, b1, epic_id, story_id, data_len);
    match epic_id {
        Some(e) => {
            lemma_le_bytes_roundtrip(e);
            assert(tag.subrange(2, 6) =~= le_bytes(e));
        },
        None => {},
    }
    match story_id {
        Some(s) => {
            lemma_le_bytes_roundtrip(s);
            assert(tag.subrange(6, 10) =~= le_bytes(s));
        },
        None => {},
    }
    match data_len {
        Some(l) => {
            lemma_le_bytes7_roundtrip(l);
            assert(tag.subrange(10, 18) =~= le_bytes7(l) + seq![0u8]);
        },
        None => {},
    }
}

/// Decoding the tag of a response gives back its kind, the epic and story ids it holds (zero
/// where it holds none) and the length of its data (zero for a response without data), for
/// data shorter than `2^56` bytes: the tag keeps only seven bytes of the length.
pub proof fn lemma_response_decode_encode(r: Response)
    requires
        response_data(r).len() < 0x100_0000_0000_0000,
    ensures
        decoded_tag(response_encoding(r)) == (
            response_kind(r),
            response_epic_id(r),
            response_story_id(r),
            response_data(r).len() as u64,
        ),
{
    lemma_kind_flags();
    let len = Some(response_data(r).len() as u64);
    match r {
        Response::ClientAddedOk(_) => lemma_decode_response_tag(128, 1, None, None, len),
        Response::ClientAlreadyExists => lemma_decode_response_tag(0, 2, None, None, None),
        Response::AddedEpicOk(e, _) => lemma_decode_response_tag(128, 4, Some(e), None, len),
        Response::DeletedEpicOk(e, _) => lemma_decode_response_tag(128, 8, Some(e), None, len),
        Response::GetEpicOk(e, _) => lemma_decode_response_tag(128, 16, Some(e), None, len),
        Response::EpicStatusUpdateOk(e, _) => lemma_decode_response_tag(128, 32, Some(e), None, len),
        Response::EpicDoesNotExist(e, _) => lemma_decode_response_tag(128, 64, Some(e), None, len),
        Response::GetStoryOk(s, _) => lemma_decode_response_tag(128, 128, None, Some(s), len),
        Response::StoryDoesNotExist(e, s, _) => lemma_decode_response_tag(129, 0, Some(e), Some(s), len),
        Response::AddedStoryOk(e, s, _) => lemma_decode_response_tag(130, 0, Some(e), Some(s), len),
        Response::DeletedStoryOk(e, s, _) => lemma_decode_response_tag(132, 0, Some(e), Some(s), len),
        Response::StoryStatusUpdateOk(e, s, _) => lemma_decode_response_tag(136, 0, Some(e), Some(s), len),
        Response::RequestNotParsed => lemma_decode_response_tag(16, 0, None, None, None),
    }
}

/// The position of a response's variant in the order in which `Response` declares them.
pub open spec fn response_index(r: Response) -> u16 {
    match r {
        Response::ClientAddedOk(_) => 0,
        Response::ClientAlreadyExists => 1,
        Response::AddedEpicOk(_, _) => 2,
        Response::DeletedEpicOk(_, _) => 3,
        Response::GetEpicOk(_, _) => 4,
        Response::EpicStatusUpdateOk(_, _) => 5,
        Response::EpicDoesNotExist(_, _) => 6,
        Response::GetStoryOk(_, _) => 7,
        Response::StoryDoesNotExist(_, _, _) => 8,
        Response::AddedStoryOk(_, _, _) => 9,
        Response::DeletedStoryOk(_, _, _) => 10,
        Response::StoryStatusUpdateOk(_, _, _) => 11,
        Response::RequestNotParsed => 12,
    }
}

/// Whether a response carries data after its tag.
pub open spec fn response_carries_data(r: Response) -> bool {
    !(r is ClientAlreadyExists || r is RequestNotParsed)
}

/// Each kind sets one bit for its variant, and bit 15 exactly for the variants with data.
proof fn lemma_kind_bits()
    ensures
        (0x8001u16 & 0x7fff) == (1u16 << 0u16) && (0x0002u16 & 0x7fff) == (1u16 << 1u16) && (
        0x8004u16 & 0x7fff) == (1u16 << 2u16) && (0x8008u16 & 0x7fff) == (1u16 << 3u16) && (
        0x8010u16 & 0x7fff) == (1u16 << 4u16) && (0x8020u16 & 0x7fff) == (1u16 << 5u16) && (
        0x8040u16 & 0x7fff) == (1u16 << 6u16) && (0x8080u16 & 0x7fff) == (1u16 << 7u16) && (
        0x8100u16 & 0x7fff) == (1u16 << 8u16) && (0x8200u16 & 0x7fff) == (1u16 << 9u16) && (
        0x8400u16 & 0x7fff) == (1u16 << 10u16) && (0x8800u16 & 0x7fff) == (1u16 << 11u16) && (
        0x1000u16 & 0x7fff) == (1u16 << 12u16),
{
    assert((0x8001u16 & 0x7fff) == (1u16 << 0u16) && (0x0002u16 & 0x7fff) == (1u16 << 1u16) && (
    0x8004u16 & 0x7fff) == (1u16 << 2u16) && (0x8008u16 & 0x7fff) == (1u16 << 3u16) && (
    0x8010u16 & 0x7fff) == (1u16 << 4u16) && (0x8020u16 & 0x7fff) == (1u16 << 5u16) && (
    0x8040u16 & 0x7fff) == (1u16 << 6u16) && (0x8080u16 & 0x7fff) == (1u16 << 7u16) && (
    0x8100u16 & 0x7fff) == (1u16 << 8u16) && (0x8200u16 & 0x7fff) == (1u16 << 9u16) && (
    0x8400u16 & 0x7fff) == (1u16 << 10u16) && (0x8800u16 & 0x7fff) == (1u16 << 11u16) && (
    0x1000u16 & 0x7fff) == (1u16 << 12u16)) by (bit_vector);
}

/// The layout of a response's tag, for data shorter than `2^56` bytes: its first two bytes,
/// the first above the second, set bit `i` for the `i`-th variant of `Response` and bit 15
/// exactly when the response carries data; then come the little-endian epic id, story id and
/// data length, each zero where the response holds none.
pub proof fn lemma_response_tag_layout(r: Response)
    requires
        response_data(r).len() < 0x100_0000_0000_0000,
    ensures
        response_encoding(r).len() == 18,
        (tag_kind(response_encoding(r)) & 0x7fff) == (1u16 << response_index(r)),
        kind_has_data(tag_kind(response_encoding(r))) == response_carries_data(r),
        le_u32_of(response_encoding(r).subrange(2, 6)) == response_epic_id(r),
        le_u32_of(response_encoding(r).subrange(6, 10)) == response_story_id(r),
        le_u64_of(response_encoding(r).subrange(10, 18)) == if response_carries_data(r) {
            response_data(r).len() as int
        } else {
            0
        },
{
    lemma_kind_flags();
    lemma_kind_bits();
    let len = Some(response_data(r).len() as u64);
    match r {
        Response::ClientAddedOk(_) => lemma_decode_response_tag(128, 1, None, None, len),
        Response::ClientAlreadyExists => lemma_decode_response_tag(0, 2, None, None, None),
        Response::AddedEpicOk(e, _) => lemma_decode_response_tag(128, 4, Some(e), None, len),
        Response::DeletedEpicOk(e, _) => lemma_decode_response_tag(128, 8, Some(e), None, len),
        Response::GetEpicOk(e, _) => lemma_decode_response_tag(128, 16, Some(e), None, len),
        Response::EpicStatusUpdateOk(e, _) => lemma_decode_response_tag(128, 32, Some(e), None, len),
        Response::EpicDoesNotExist(e, _) => lemma_decode_response_tag(128, 64, Some(e), None, len),
        Response::GetStoryOk(s, _) => lemma_decode_response_tag(128, 128, None, Some(s), len),
        Response::StoryDoesNotExist(e, s, _) => lemma_decode_response_tag(129, 0, Some(e), Some(s), len),
        Response::AddedStoryOk(e, s, _) => lemma_decode_response_tag(130, 0, Some(e), Some(s), len),
        Response::DeletedStoryOk(e, s, _) => lemma_decode_response_tag(132, 0, Some(e), Some(s), len),
        Response::StoryStatusUpdateOk(e, s, _) => lemma_decode_response_tag(136, 0, Some(e), Some(s), len),
        Response::RequestNotParsed => lemma_decode_response_tag(16, 0, None, None, None),
    }
}

} // verus!
