use async_jira_cli::models::BytesEncode;
use async_jira_cli::response::Response;
use async_jira_cli::utils::AsBytes;

#[test]
fn test_response_encode() {
    let response = Response::ClientAddedOk(vec![1, 2, 3, 4, 5]);
    let encoding = response.encode();
    println!("{:?}", encoding);
    assert_eq!(encoding, [128, 1, 0, 0, 0, 0, 0, 0, 0, 0, 5, 0, 0, 0, 0, 0, 0, 0]);

    let response = Response::ClientAlreadyExists;
    let encoding = response.encode();
    println!("{:?}", encoding);
    assert_eq!(encoding, [0, 2, 0, 0, 0, 0, 0, 0, 0, 0, 0, 0, 0, 0, 0, 0, 0, 0]);

    let response = Response::AddedEpicOk(2353, vec![1, 2, 3, 4, 5]);
    let encoding = response.encode();
    println!("{:?}", encoding);
    assert_eq!(encoding, [128, 4, 49, 9, 0, 0, 0, 0, 0, 0, 5, 0, 0, 0, 0, 0, 0, 0]);

    let response = Response::DeletedEpicOk(2353, vec![1, 2, 3, 4, 5]);
    let encoding = response.encode();
    println!("{:?}", encoding);
    assert_eq!(encoding, [128, 8, 49, 9, 0, 0, 0, 0, 0, 0, 5, 0, 0, 0, 0, 0, 0, 0]);

    let response = Response::GetEpicOk(2353, vec![1, 2, 3, 4, 5]);
    let encoding = response.encode();
    println!("{:?}", encoding);
    assert_eq!(encoding, [128, 16, 49, 9, 0, 0, 0, 0, 0, 0, 5, 0, 0, 0, 0, 0, 0, 0]);

    let response = Response::EpicStatusUpdateOk(2353, vec![1, 2, 3, 4, 5]);
    let encoding = response.encode();
    println!("{:?}", encoding);
    assert_eq!(encoding, [128, 32, 49, 9, 0, 0, 0, 0, 0, 0, 5, 0, 0, 0, 0, 0, 0, 0]);

    let response = Response::EpicDoesNotExist(2353, vec![1, 2, 3, 4, 5]);
    let encoding = response.encode();
    println!("{:?}", encoding);
    assert_eq!(encoding, [128, 64, 49, 9, 0, 0, 0, 0, 0, 0, 5, 0, 0, 0, 0, 0, 0, 0]);

    let response = Response::GetStoryOk(4798,vec![1, 2, 3, 4, 5]);
    let encoding = response.encode();
    println!("{:?}", encoding);
    assert_eq!(encoding, [128, 128, 0, 0, 0, 0, 190, 18, 0, 0, 5, 0, 0, 0, 0, 0, 0, 0]);

    let response = Response::StoryDoesNotExist(2353, 4798, vec![1, 2, 3, 4, 5]);
    let encoding = response.encode();
    println!("{:?}", encoding);
    assert_eq!(encoding, [129, 0, 49, 9, 0, 0, 190, 18, 0, 0, 5, 0, 0, 0, 0, 0, 0, 0]);

    let response = Response::AddedStoryOk(2353, 4798, vec![1, 2, 3, 4, 5]);
    let encoding = response.encode();
    println!("{:?}", encoding);
    assert_eq!(encoding, [130, 0, 49, 9, 0, 0, 190, 18, 0, 0, 5, 0, 0, 0, 0, 0, 0, 0]);

    let response = Response::DeletedStoryOk(2353, 4798, vec![1, 2, 3, 4, 5]);
    let encoding = response.encode();
    println!("{:?}", encoding);
    assert_eq!(encoding, [132, 0, 49, 9, 0, 0, 190, 18, 0, 0, 5, 0, 0, 0, 0, 0, 0, 0]);

    let response = Response::StoryStatusUpdateOk(2353, 4798, vec![1, 2, 3, 4, 5]);
    let encoding = response.encode();
    println!("{:?}", encoding);
    assert_eq!(encoding, [136, 0, 49, 9, 0, 0, 190, 18, 0, 0, 5, 0, 0, 0, 0, 0, 0, 0]);

    let response = Response::RequestNotParsed;
    let encoding = response.encode();
    println!("{:?}", encoding);
    assert_eq!(encoding, [16, 0, 0, 0, 0, 0, 0, 0, 0, 0, 0, 0, 0, 0, 0, 0, 0, 0]);
}

#[test]
fn test_response_decode() {
    let response = Response::ClientAddedOk(vec![]);
    let encoding = response.encode();
    assert_eq!(encoding, [128, 1, 0, 0, 0, 0, 0, 0, 0, 0, 0, 0, 0, 0, 0, 0, 0, 0]);
    let decoding = Response::decode(&encoding);
    println!("{:?}", decoding);
    assert_eq!(decoding, (32769, 0, 0, 0));
    println!("{:016b}", decoding.0);

    let response = Response::ClientAlreadyExists;
    let encoding = response.encode();
    assert_eq!(encoding, [0, 2, 0, 0, 0, 0, 0, 0, 0, 0, 0, 0, 0, 0, 0, 0, 0, 0]);
    let decoding = Response::decode(&encoding);
    println!("{:?}", decoding);
    assert_eq!(decoding, (2, 0, 0, 0));
    println!("{:016b}", decoding.0);

    let response = Response::AddedEpicOk(2353, vec![1, 2, 3, 4, 5]);
    let encoding = response.encode();
    assert_eq!(encoding, [128, 4, 49, 9, 0, 0, 0, 0, 0, 0, 5, 0, 0, 0, 0, 0, 0, 0]);
    let decoding = Response::decode(&encoding);
    println!("{:?}", decoding);
    assert_eq!(decoding, (32772, 2353, 0, 5));
    println!("{:016b}", decoding.0);

    let response = Response::DeletedEpicOk(2353, vec![1, 2, 3, 4, 5]);
    let encoding = response.encode();
    assert_eq!(encoding, [128, 8, 49, 9, 0, 0, 0, 0, 0, 0, 5, 0, 0, 0, 0, 0, 0, 0]);
    let decoding = Response::decode(&encoding);
    println!("{:?}", decoding);
    assert_eq!(decoding, (32776, 2353, 0, 5));
    println!("{:016b}", decoding.0);

    let response = Response::GetEpicOk(2353, vec![1, 2, 3, 4, 5]);
    let encoding = response.encode();
    assert_eq!(encoding, [128, 16, 49, 9, 0, 0, 0, 0, 0, 0, 5, 0, 0, 0, 0, 0, 0, 0]);
    let decoding = Response::decode(&encoding);
    println!("{:?}", decoding);
    assert_eq!(decoding, (32784, 2353, 0, 5));
    println!("{:016b}", decoding.0);

    let response = Response::EpicStatusUpdateOk(2353, vec![1, 2, 3, 4, 5]);
    let encoding = response.encode();
    assert_eq!(encoding, [128, 32, 49, 9, 0, 0, 0, 0, 0, 0, 5, 0, 0, 0, 0, 0, 0, 0]);
    let decoding = Response::decode(&encoding);
    println!("{:?}", decoding);
    assert_eq!(decoding, (32800, 2353, 0, 5));
    println!("{:016b}", decoding.0);

    let response = Response::EpicDoesNotExist(2353, vec![1, 2, 3, 4, 5]);
    let encoding = response.encode();
    assert_eq!(encoding, [128, 64, 49, 9, 0, 0, 0, 0, 0, 0, 5, 0, 0, 0, 0, 0, 0, 0]);
    let decoding = Response::decode(&encoding);
    println!("{:?}", decoding);
    assert_eq!(decoding, (32832, 2353, 0, 5));
    println!("{:016b}", decoding.0);

    let response = Response::GetStoryOk(4798, vec![1, 2, 3, 4, 5]);
    let encoding = response.encode();
    assert_eq!(encoding, [128, 128, 0, 0, 0, 0, 190, 18, 0, 0, 5, 0, 0, 0, 0, 0, 0, 0]);
    let decoding = Response::decode(&encoding);
    println!("{:?}", decoding);
    assert_eq!(decoding, (32896, 0, 4798, 5));
    println!("{:016b}", decoding.0);

    let response = Response::StoryDoesNotExist(2353, 4798, vec![1, 2, 3, 4, 5]);
    let encoding = response.encode();
    println!("{:?}", encoding);
    assert_eq!(encoding, [129, 0, 49, 9, 0, 0, 190, 18, 0, 0, 5, 0, 0, 0, 0, 0, 0, 0]);
    let decoding = Response::decode(&encoding);
    println!("{:?}", decoding);
    assert_eq!(decoding, (33024, 2353, 4798, 5));
    println!("{:016b}", decoding.0);

    let response = Response::AddedStoryOk(2353, 4798, vec![1, 2, 3, 4, 5]);
    let encoding = response.encode();
    assert_eq!(encoding, [130, 0, 49, 9, 0, 0, 190, 18, 0, 0, 5, 0, 0, 0, 0, 0, 0, 0]);
    let decoding = Response::decode(&encoding);
    println!("{:?}", decoding);
    assert_eq!(decoding, (33280, 2353, 4798, 5));
    println!("{:016b}", decoding.0);

    let response = Response::DeletedStoryOk(2353, 4798, vec![1, 2, 3, 4, 5]);
    let encoding = response.encode();
    assert_eq!(encoding, [132, 0, 49, 9, 0, 0, 190, 18, 0, 0, 5, 0, 0, 0, 0, 0, 0, 0]);
    let decoding = Response::decode(&encoding);
    println!("{:?}", decoding);
    assert_eq!(decoding, (33792, 2353, 4798, 5));
    println!("{:016b}", decoding.0);

    let response = Response::StoryStatusUpdateOk(2353, 4798, vec![1, 2, 3, 4, 5]);
    let encoding = response.encode();
    assert_eq!(encoding, [136, 0, 49, 9, 0, 0, 190, 18, 0, 0, 5, 0, 0, 0, 0, 0, 0, 0]);
    let decoding = Response::decode(&encoding);
    println!("{:?}", decoding);
    assert_eq!(decoding, (34816, 2353, 4798, 5));
    println!("{:016b}", decoding.0);

    let response = Response::RequestNotParsed;
    let encoding = response.encode();
    assert_eq!(encoding, [16, 0, 0, 0, 0, 0, 0, 0, 0, 0, 0, 0, 0, 0, 0, 0, 0, 0]);
    let decoding = Response::decode(&encoding);
    println!("{:?}", decoding);
    assert_eq!(decoding, (4096, 0, 0, 0));
    println!("{:016b}", decoding.0);
}

#[test]
fn test_response_as_bytes() {
    let response = Response::ClientAddedOk(vec![1, 2, 3]);
    let bytes = response.as_bytes();
    println!("{:?}", bytes);
    assert_eq!(bytes, vec![128, 1, 0, 0, 0, 0, 0, 0, 0, 0, 3, 0, 0, 0, 0, 0, 0, 0, 1, 2, 3]);

    let response = Response::ClientAlreadyExists;
    let bytes = response.as_bytes();
    println!("{:?}", bytes);
    assert_eq!(bytes, vec![0, 2, 0, 0, 0, 0, 0, 0, 0, 0, 0, 0, 0, 0, 0, 0, 0, 0,]);

    let response = Response::AddedEpicOk(2353, vec![1, 2, 3]);
    let bytes = response.as_bytes();
    println!("{:?}", bytes);
    assert_eq!(bytes, vec![128, 4, 49, 9, 0, 0, 0, 0, 0, 0, 3, 0, 0, 0, 0, 0, 0, 0, 1, 2, 3]);

    let response = Response::DeletedEpicOk(2353, vec![1, 2, 3]);
    let bytes = response.as_bytes();
    println!("{:?}", bytes);
    assert_eq!(bytes, vec![128, 8, 49, 9, 0, 0, 0, 0, 0, 0, 3, 0, 0, 0, 0, 0, 0, 0, 1, 2, 3]);

    let response = Response::GetEpicOk(2353, vec![1, 2, 3]);
    let bytes = response.as_bytes();
    println!("{:?}", bytes);
    assert_eq!(bytes, [128, 16, 49, 9, 0, 0, 0, 0, 0, 0, 3, 0, 0, 0, 0, 0, 0, 0, 1, 2, 3]);

    let response = Response::EpicStatusUpdateOk(2353, vec![1, 2, 3]);
    let bytes = response.as_bytes();
    println!("{:?}", bytes);
    assert_eq!(bytes, [128, 32, 49, 9, 0, 0, 0, 0, 0, 0, 3, 0, 0, 0, 0, 0, 0, 0, 1, 2, 3]);

    let response = Response::EpicDoesNotExist(2353, vec![1, 2, 3, 4]);
    let bytes = response.as_bytes();
    println!("{:?}", bytes);
    assert_eq!(bytes, [128, 64, 49, 9, 0, 0, 0, 0, 0, 0, 4, 0, 0, 0, 0, 0, 0, 0, 1, 2, 3, 4]);

    let response = Response::GetStoryOk(4798, vec![1, 2, 3]);
    let bytes = response.as_bytes();
    println!("{:?}", bytes);
    assert_eq!(bytes, [128, 128, 0, 0, 0, 0, 190, 18, 0, 0, 3, 0, 0, 0, 0, 0, 0, 0, 1, 2, 3]);

    let response = Response::StoryDoesNotExist(2353, 4798, vec![1, 2, 3]);
    let bytes = response.as_bytes();
    println!("{:?}", bytes);
    assert_eq!(bytes, [129, 0, 49, 9, 0, 0, 190, 18, 0, 0, 3, 0, 0, 0, 0, 0, 0, 0, 1, 2, 3]);

    let response = Response::AddedStoryOk(2353, 4798, vec![1, 2, 3]);
    let bytes = response.as_bytes();
    println!("{:?}", bytes);
    assert_eq!(bytes, [130, 0, 49, 9, 0, 0, 190, 18, 0, 0, 3, 0, 0, 0, 0, 0, 0, 0, 1, 2, 3]);

    let response = Response::DeletedStoryOk(2353, 4798, vec![1, 2, 3]);
    let bytes = response.as_bytes();
    println!("{:?}", bytes);
    assert_eq!(bytes, [132, 0, 49, 9, 0, 0, 190, 18, 0, 0, 3, 0, 0, 0, 0, 0, 0, 0, 1, 2, 3]);

    let response = Response::StoryStatusUpdateOk(2353, 4798, vec![1, 2, 3]);
    let bytes = response.as_bytes();
    println!("{:?}", bytes);
    assert_eq!(bytes, [136, 0, 49, 9, 0, 0, 190, 18, 0, 0, 3, 0, 0, 0, 0, 0, 0, 0, 1, 2, 3]);

    let response = Response::RequestNotParsed;
    let bytes = response.as_bytes();
    println!("{:?}", bytes);
    assert_eq!(bytes, [16, 0, 0, 0, 0, 0, 0, 0, 0, 0, 0, 0, 0, 0, 0, 0, 0, 0,]);
}

#[test]
fn test_response_field_encoders_xor_into_place() {
    let mut buf = [0u8; 18];
    Response::encode_epic_id(&mut buf, 0x0403_0201);
    assert_eq!(buf[2..6], [1, 2, 3, 4]);
    Response::encode_story_id(&mut buf, 0x0807_0605);
    assert_eq!(buf[6..10], [5, 6, 7, 8]);
    Response::encode_data_len(&mut buf, &vec![0u8; 300]);
    assert_eq!(buf[10..18], [44, 1, 0, 0, 0, 0, 0, 0]);
    // Encoding the same id twice cancels out, as XOR does.
    Response::encode_epic_id(&mut buf, 0x0403_0201);
    assert_eq!(buf[2..6], [0, 0, 0, 0]);
}

#[test]
fn test_response_decode_reads_back_encode() {
    let responses = vec![
        (Response::ClientAddedOk(vec![7; 260]), (0x8001u16, 0u32, 0u32, 260u64)),
        (Response::EpicDoesNotExist(u32::MAX, vec![1]), (0x8040, u32::MAX, 0, 1)),
        (Response::GetStoryOk(77, vec![]), (0x8080, 0, 77, 0)),
        (Response::StoryStatusUpdateOk(1, 2, vec![3, 4]), (0x8800, 1, 2, 2)),
        (Response::ClientAlreadyExists, (0x0002, 0, 0, 0)),
    ];
    for (response, expected) in responses {
        let tag = response.encode();
        assert_eq!(Response::decode(&tag), expected);
    }
}

#[test]
fn test_response_decode_ignores_fields_the_kind_does_not_name() {
    // A kind that names no epic, no story and no data: the other bytes are not read.
    let tag = [16u8, 0, 9, 9, 9, 9, 9, 9, 9, 9, 9, 9, 9, 9, 9, 9, 9, 9];
    assert_eq!(Response::decode(&tag), (4096, 0, 0, 0));
}
