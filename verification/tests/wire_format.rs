use coerce::remote::actor::message::new_request_id;
use coerce::remote::cluster::sharding::request::{Envelope, RemoteEntityRequest};
use coerce::remote::net::proto::{
    bytes_in, nested_in, number_in, text_in, write_bytes, write_nested, write_number, write_text,
    ActorAddress, FindActor, MessageUnwrapErr, MessageWrapErr, Ping, Pong, SessionEvent,
};
use coerce::actor::refs::ActorRefErr;
use coerce::remote::net::wire::{
    read_field, read_fields, read_message_fields, read_varint, top_level_fields, write_bytes_field,
    write_varint, write_varint_field, WireField, WireValue,
};
use protobuf::CodedOutputStream;

fn varint(value: u64) -> Vec<u8> {
    let mut out = Vec::new();
    write_varint(&mut out, value);
    out
}

#[test]
fn varint_bytes() {
    assert_eq!(varint(0), vec![0x00]);
    assert_eq!(varint(1), vec![0x01]);
    assert_eq!(varint(127), vec![0x7f]);
    assert_eq!(varint(128), vec![0x80, 0x01]);
    assert_eq!(varint(300), vec![0xac, 0x02]);
    assert_eq!(varint(16_383), vec![0xff, 0x7f]);
    assert_eq!(varint(16_384), vec![0x80, 0x80, 0x01]);
    assert_eq!(
        varint(u64::MAX),
        vec![0xff, 0xff, 0xff, 0xff, 0xff, 0xff, 0xff, 0xff, 0xff, 0x01]
    );
    let mut out = vec![9];
    write_varint(&mut out, 300);
    assert_eq!(out, vec![9, 0xac, 0x02]);
}

#[test]
fn varints_agree_with_protobuf() {
    for value in [0u64, 1, 127, 128, 255, 300, 1 << 14, (1 << 21) - 1, 1 << 35, 1 << 63, u64::MAX] {
        let mut expected = Vec::new();
        {
            let mut os = CodedOutputStream::vec(&mut expected);
            os.write_raw_varint64(value).unwrap();
            os.flush().unwrap();
        }
        assert_eq!(varint(value), expected);
        assert_eq!(read_varint(&expected, 0), Some((value, expected.len())));
    }
}

#[test]
fn read_varint_edges() {
    assert_eq!(read_varint(&[], 0), None);
    assert_eq!(read_varint(&[0x80], 0), None);
    assert_eq!(read_varint(&[0x05], 1), None);
    assert_eq!(read_varint(&[0xff, 0x05, 0x07], 1), Some((5, 2)));
    assert_eq!(read_varint(&[0x80, 0x00], 0), Some((0, 2)));
    let max = [0xff, 0xff, 0xff, 0xff, 0xff, 0xff, 0xff, 0xff, 0xff, 0x01];
    assert_eq!(read_varint(&max, 0), Some((u64::MAX, 10)));
    let too_big = [0xff, 0xff, 0xff, 0xff, 0xff, 0xff, 0xff, 0xff, 0xff, 0x02];
    assert_eq!(read_varint(&too_big, 0), None);
    let too_long = [0x80, 0x80, 0x80, 0x80, 0x80, 0x80, 0x80, 0x80, 0x80, 0x80, 0x00];
    assert_eq!(read_varint(&too_long, 0), None);
}

#[test]
fn fields_agree_with_protobuf() {
    let mut expected = Vec::new();
    {
        let mut os = CodedOutputStream::vec(&mut expected);
        os.write_string(1, "héllo").unwrap();
        os.write_uint64(2, 300).unwrap();
        os.write_bytes(3, &[0, 1, 2, 255]).unwrap();
        os.write_uint64(536_870_911, 1).unwrap();
        os.flush().unwrap();
    }
    let mut out = Vec::new();
    write_bytes_field(&mut out, 1, "héllo".as_bytes());
    write_varint_field(&mut out, 2, 300);
    write_bytes_field(&mut out, 3, &[0, 1, 2, 255]);
    write_varint_field(&mut out, 536_870_911, 1);
    assert_eq!(out, expected);

    let fields = read_fields(&out).unwrap();
    assert_eq!(
        fields,
        vec![
            WireField { number: 1, value: WireValue::Bytes("héllo".as_bytes().to_vec()) },
            WireField { number: 2, value: WireValue::Varint(300) },
            WireField { number: 3, value: WireValue::Bytes(vec![0, 1, 2, 255]) },
            WireField { number: 536_870_911, value: WireValue::Varint(1) },
        ]
    );
    assert_eq!(text_in(&fields, 1), Some("héllo".to_string()));
    assert_eq!(number_in(&fields, 2), Some(300));
    assert_eq!(bytes_in(&fields, 3), Some(vec![0, 1, 2, 255]));
    assert_eq!(nested_in(&fields, 3), Some(Some(vec![0, 1, 2, 255])));
}

#[test]
fn malformed_fields_are_refused() {
    assert_eq!(read_fields(&[]), Some(vec![]));
    assert_eq!(read_field(&[], 0), None);
    // field number zero
    assert_eq!(read_fields(&[0x00, 0x01]), None);
    // fixed-width fields cut short
    assert_eq!(read_fields(&[0x09, 1, 2, 3, 4, 5, 6, 7]), None);
    assert_eq!(read_fields(&[0x0d, 1, 2, 3]), None);
    // kinds six and seven do not exist
    assert_eq!(read_fields(&[0x0e]), None);
    assert_eq!(read_fields(&[0x0f, 0x00]), None);
    // bytes that say they are longer than what is left
    assert_eq!(read_fields(&[0x0a, 0x05, b'a', b'b']), None);
    // an integer field cut short
    assert_eq!(read_fields(&[0x08]), None);
    assert_eq!(read_fields(&[0x08, 0x80]), None);
    // the second field is broken
    assert_eq!(read_fields(&[0x08, 0x01, 0x0a]), None);
    assert_eq!(
        read_field(&[0xff, 0x10, 0x2a], 1),
        Some((WireField { number: 2, value: WireValue::Varint(42) }, 3))
    );
}

#[test]
fn lookups_take_the_last_field_and_mind_its_kind() {
    let fields = vec![
        WireField { number: 1, value: WireValue::Bytes(b"first".to_vec()) },
        WireField { number: 2, value: WireValue::Varint(7) },
        WireField { number: 1, value: WireValue::Bytes(b"last".to_vec()) },
        WireField { number: 4, value: WireValue::Bytes(vec![0xff, 0xfe]) },
    ];
    assert_eq!(text_in(&fields, 1), Some("last".to_string()));
    assert_eq!(bytes_in(&fields, 1), Some(b"last".to_vec()));
    assert_eq!(number_in(&fields, 2), Some(7));
    assert_eq!(text_in(&fields, 2), None);
    assert_eq!(bytes_in(&fields, 2), None);
    assert_eq!(nested_in(&fields, 2), None);
    assert_eq!(number_in(&fields, 1), None);
    assert_eq!(text_in(&fields, 4), None);
    assert_eq!(text_in(&fields, 9), Some(String::new()));
    assert_eq!(bytes_in(&fields, 9), Some(vec![]));
    assert_eq!(number_in(&fields, 9), Some(0));
    assert_eq!(nested_in(&fields, 9), Some(None));
}

#[test]
fn default_values_are_not_written() {
    let mut out = Vec::new();
    write_text(&mut out, 1, "");
    write_bytes(&mut out, 2, &[]);
    write_number(&mut out, 3, 0);
    write_nested(&mut out, 4, &None);
    assert_eq!(out, Vec::<u8>::new());
    write_nested(&mut out, 4, &Some(vec![]));
    assert_eq!(out, vec![0x22, 0x00]);
    write_text(&mut out, 1, "a");
    write_number(&mut out, 3, 1);
    write_bytes(&mut out, 2, &[7]);
    assert_eq!(out, vec![0x22, 0x00, 0x0a, 0x01, b'a', 0x18, 0x01, 0x12, 0x01, 7]);
}

#[test]
fn ping_and_pong_round_trip() {
    let ping = Ping { message_id: "550e8400-e29b-41d4-a716-446655440000".to_string() };
    let bytes = ping.write_to_bytes();
    let mut expected = Vec::new();
    {
        let mut os = CodedOutputStream::vec(&mut expected);
        os.write_string(1, &ping.message_id).unwrap();
        os.flush().unwrap();
    }
    assert_eq!(bytes, expected);
    assert_eq!(Ping::parse_from_bytes(&bytes), Ok(ping));

    let pong = Pong { message_id: "x".to_string() };
    assert_eq!(pong.write_to_bytes(), vec![0x0a, 0x01, b'x']);
    assert_eq!(Pong::parse_from_bytes(&pong.write_to_bytes()), Ok(pong));
    assert_eq!(Pong::parse_from_bytes(&[]), Ok(Pong { message_id: String::new() }));
    assert_eq!(Pong { message_id: String::new() }.write_to_bytes(), Vec::<u8>::new());
    assert_eq!(Pong::parse_from_bytes(&[0x08, 0x01]), Err(MessageUnwrapErr::DeserializationErr));
    assert_eq!(Pong::parse_from_bytes(&[0x0a, 0x01, 0xff]), Err(MessageUnwrapErr::DeserializationErr));
    assert_eq!(Ping::parse_from_bytes(&[0x0a]), Err(MessageUnwrapErr::DeserializationErr));
    // an unknown field is passed over
    assert_eq!(
        Pong::parse_from_bytes(&[0x0a, 0x01, b'x', 0x38, 0x05]),
        Ok(Pong { message_id: "x".to_string() })
    );
}

#[test]
fn find_actor_and_actor_address_round_trip() {
    let find = FindActor {
        message_id: "m-1".to_string(),
        actor_id: "user-42".to_string(),
        trace_id: String::new(),
    };
    let bytes = find.write_to_bytes();
    let mut expected = Vec::new();
    {
        let mut os = CodedOutputStream::vec(&mut expected);
        os.write_string(1, "m-1").unwrap();
        os.write_string(2, "user-42").unwrap();
        os.flush().unwrap();
    }
    assert_eq!(bytes, expected);
    assert_eq!(FindActor::parse_from_bytes(&bytes), Ok(find));

    let address = ActorAddress { message_id: "m-1".to_string(), node_id: 300, actor_id: "user-42".to_string() };
    let bytes = address.write_to_bytes();
    let mut expected = Vec::new();
    {
        let mut os = CodedOutputStream::vec(&mut expected);
        os.write_string(1, "m-1").unwrap();
        os.write_uint64(2, 300).unwrap();
        os.write_string(3, "user-42").unwrap();
        os.flush().unwrap();
    }
    assert_eq!(bytes, expected);
    assert_eq!(ActorAddress::parse_from_bytes(&bytes), Ok(address));
    assert_eq!(
        ActorAddress::parse_from_bytes(&[0x12, 0x01, b'x']),
        Err(MessageUnwrapErr::DeserializationErr)
    );
    let unknown = ActorAddress { message_id: String::new(), node_id: 0, actor_id: String::new() };
    assert_eq!(unknown.write_to_bytes(), Vec::<u8>::new());
    assert_eq!(ActorAddress::parse_from_bytes(&[]), Ok(unknown));
}

fn entity_request(recipe: Option<Vec<u8>>) -> RemoteEntityRequest {
    RemoteEntityRequest {
        request_id: 0x550e8400_e29b_41d4_a716_446655440000,
        actor_id: "entity-0".to_string(),
        message_type: "Deposit".to_string(),
        message: vec![1, 2, 3],
        recipe,
        origin_node: 7,
    }
}

#[test]
fn remote_entity_request_bytes() {
    let request = entity_request(Some(vec![9, 9]));
    let bytes = request.write_to_bytes();
    let mut recipe = Vec::new();
    {
        let mut os = CodedOutputStream::vec(&mut recipe);
        os.write_bytes(1, &[9, 9]).unwrap();
        os.flush().unwrap();
    }
    let mut expected = Vec::new();
    {
        let mut os = CodedOutputStream::vec(&mut expected);
        os.write_string(1, "550e8400-e29b-41d4-a716-446655440000").unwrap();
        os.write_string(2, "entity-0").unwrap();
        os.write_string(3, "Deposit").unwrap();
        os.write_bytes(4, &[1, 2, 3]).unwrap();
        os.write_bytes(5, &recipe).unwrap();
        os.write_uint64(6, 7).unwrap();
        os.flush().unwrap();
    }
    assert_eq!(bytes, expected);
    assert_eq!(RemoteEntityRequest::parse_from_bytes(&bytes), Ok(request));
}

#[test]
fn remote_entity_request_round_trips_through_its_envelope() {
    for recipe in [None, Some(vec![]), Some(vec![0u8; 300])] {
        let mut request = entity_request(recipe);
        request.request_id = new_request_id();
        let bytes = match request.as_remote_envelope() {
            Ok(Envelope::Remote(bytes)) => bytes,
            other => panic!("a remote envelope is bytes: {:?}", other),
        };
        assert_eq!(RemoteEntityRequest::from_remote_envelope(bytes), Ok(request));
    }
    let mut empty = entity_request(None);
    empty.actor_id = String::new();
    empty.message_type = String::new();
    empty.message = vec![];
    empty.origin_node = 0;
    assert_eq!(RemoteEntityRequest::from_remote_envelope(empty.write_to_bytes()), Ok(empty));
}

#[test]
fn remote_entity_request_refuses_what_is_no_request() {
    let good = entity_request(Some(vec![1])).write_to_bytes();
    assert!(RemoteEntityRequest::from_remote_envelope(good.clone()).is_ok());
    // no request identifier at all
    assert_eq!(
        RemoteEntityRequest::from_remote_envelope(vec![]),
        Err(MessageUnwrapErr::DeserializationErr)
    );
    // a request identifier that is no UUID
    let mut bad_id = Vec::new();
    write_text(&mut bad_id, 1, "not-a-uuid");
    assert_eq!(
        RemoteEntityRequest::from_remote_envelope(bad_id),
        Err(MessageUnwrapErr::DeserializationErr)
    );
    // cut short
    assert_eq!(
        RemoteEntityRequest::from_remote_envelope(good[..good.len() - 1].to_vec()),
        Err(MessageUnwrapErr::DeserializationErr)
    );
    // a recipe that is no message
    let mut bad_recipe = Vec::new();
    write_text(&mut bad_recipe, 1, "550e8400-e29b-41d4-a716-446655440000");
    write_nested(&mut bad_recipe, 5, &Some(vec![0xff]));
    assert_eq!(
        RemoteEntityRequest::from_remote_envelope(bad_recipe),
        Err(MessageUnwrapErr::DeserializationErr)
    );
    // the origin node as bytes
    let mut bad_origin = Vec::new();
    write_text(&mut bad_origin, 1, "550e8400-e29b-41d4-a716-446655440000");
    write_bytes(&mut bad_origin, 6, &[1]);
    assert_eq!(
        RemoteEntityRequest::from_remote_envelope(bad_origin),
        Err(MessageUnwrapErr::DeserializationErr)
    );
    // upper case and braces are forms of the same identifier
    let mut braced = Vec::new();
    write_text(&mut braced, 1, "{550E8400-E29B-41D4-A716-446655440000}");
    assert_eq!(
        RemoteEntityRequest::from_remote_envelope(braced).map(|r| r.request_id),
        Ok(0x550e8400_e29b_41d4_a716_446655440000)
    );
}

#[test]
fn remote_results_carry_nothing() {
    assert_eq!(RemoteEntityRequest::read_remote_result(vec![1, 2, 3]), Ok(()));
    assert_eq!(RemoteEntityRequest::write_remote_result(()), Ok(vec![]));
}

#[test]
fn session_events_round_trip() {
    let events = vec![
        SessionEvent::Ping(Ping { message_id: "p".to_string() }),
        SessionEvent::Pong(Pong { message_id: String::new() }),
        SessionEvent::FindActor(FindActor {
            message_id: "m".to_string(),
            actor_id: "user-42".to_string(),
            trace_id: "t".to_string(),
        }),
        SessionEvent::RegisterActor(ActorAddress {
            message_id: String::new(),
            node_id: 2,
            actor_id: "user-42".to_string(),
        }),
    ];
    for event in events {
        let bytes = event.write_to_bytes();
        assert_eq!(SessionEvent::parse_from_bytes(&bytes), Ok(event));
    }
    assert_eq!(
        SessionEvent::Ping(Ping { message_id: "p".to_string() }).write_to_bytes(),
        vec![0x0a, 0x03, 0x0a, 0x01, b'p']
    );
    assert_eq!(
        SessionEvent::Pong(Pong { message_id: String::new() }).write_to_bytes(),
        vec![0x12, 0x00]
    );
    for bad in [vec![], vec![0x08, 0x01], vec![0x2a, 0x00], vec![0x0a, 0x01, 0xff], vec![0x0a]] {
        assert_eq!(SessionEvent::parse_from_bytes(&bad), Err(MessageUnwrapErr::DeserializationErr));
    }
}

#[test]
fn codec_errors_as_the_sender_sees_them() {
    assert_eq!(MessageWrapErr::SerializationErr.into_ref_err(), ActorRefErr::SerializationErr);
    assert_eq!(MessageWrapErr::NotTransmittable.into_ref_err(), ActorRefErr::NotSupported);
    assert_eq!(MessageUnwrapErr::DeserializationErr.into_ref_err(), ActorRefErr::DeserializationErr);
    assert_eq!(MessageUnwrapErr::NotTransmittable.into_ref_err(), ActorRefErr::NotSupported);
}

#[test]
fn fields_of_every_kind_are_read() {
    let bytes = [0x09, 1, 2, 3, 4, 5, 6, 7, 8, 0x15, 9, 8, 7, 6, 0x1b, 0x1c];
    assert_eq!(
        read_fields(&bytes),
        Some(vec![
            WireField { number: 1, value: WireValue::Fixed64(vec![1, 2, 3, 4, 5, 6, 7, 8]) },
            WireField { number: 2, value: WireValue::Fixed32(vec![9, 8, 7, 6]) },
            WireField { number: 3, value: WireValue::GroupStart },
            WireField { number: 3, value: WireValue::GroupEnd },
        ])
    );
}

#[test]
fn groups_are_left_out_with_what_they_hold() {
    let inside = WireField { number: 1, value: WireValue::Varint(5) };
    let before = WireField { number: 2, value: WireValue::Varint(6) };
    let after = WireField { number: 4, value: WireValue::Bytes(vec![1]) };
    let open = WireField { number: 9, value: WireValue::GroupStart };
    let close = WireField { number: 9, value: WireValue::GroupEnd };
    assert_eq!(top_level_fields(vec![]), Some(vec![]));
    assert_eq!(
        top_level_fields(vec![
            before.clone(),
            open.clone(),
            inside.clone(),
            inside.clone(),
            close.clone(),
            after.clone(),
            open.clone(),
            close.clone(),
        ]),
        Some(vec![before.clone(), after.clone()])
    );
    // a group within a group, a group closed outside of one, a group left open
    assert_eq!(
        top_level_fields(vec![open.clone(), open.clone(), close.clone(), close.clone()]),
        None
    );
    assert_eq!(top_level_fields(vec![before.clone(), close.clone()]), None);
    assert_eq!(top_level_fields(vec![open.clone(), inside.clone()]), None);
    assert_eq!(read_message_fields(&[0x10, 0x06, 0x4b, 0x08, 0x05, 0x4c]), Some(vec![before]));
    assert_eq!(read_message_fields(&[0x4b, 0x08]), None);
}

#[test]
fn unknown_fields_of_every_kind_are_passed_over_as_protobuf_does() {
    let mut bytes = Vec::new();
    {
        let mut os = CodedOutputStream::vec(&mut bytes);
        os.write_fixed64(7, 0x0102_0304_0506_0708).unwrap();
        os.write_string(1, "x").unwrap();
        os.write_fixed32(8, 0xdead_beef).unwrap();
        os.write_uint64(9, 77).unwrap();
        os.write_bytes(10, &[1, 2, 3]).unwrap();
        os.flush().unwrap();
    }
    assert_eq!(Pong::parse_from_bytes(&bytes), Ok(Pong { message_id: "x".to_string() }));
    // the same through protobuf's own reader: every field is read or passed over
    let mut is = protobuf::CodedInputStream::from_bytes(&bytes);
    let mut seen = Vec::new();
    while !is.eof().unwrap() {
        let (number, wire_type) = is.read_tag_unpack().unwrap();
        if number == 1 {
            seen.push(is.read_string().unwrap());
        } else {
            is.skip_field(wire_type).unwrap();
        }
    }
    assert_eq!(seen, vec!["x".to_string()]);

    // a group with an unknown number, holding a field numbered like the message's own
    let with_group = [0x0a, 0x01, b'x', 0x3b, 0x0a, 0x01, b'y', 0x3c];
    assert_eq!(Pong::parse_from_bytes(&with_group), Ok(Pong { message_id: "x".to_string() }));
    // a known field of the wrong kind is an error
    assert_eq!(
        Pong::parse_from_bytes(&[0x09, 1, 2, 3, 4, 5, 6, 7, 8]),
        Err(MessageUnwrapErr::DeserializationErr)
    );
    // a group left open is an error
    assert_eq!(Pong::parse_from_bytes(&[0x3b]), Err(MessageUnwrapErr::DeserializationErr));
}
